//! What holds of the system bus.

use vstd::prelude::*;
use crate::bits;
use crate::bus;
use crate::bus::BusModel;
use crate::contra;
use crate::memory;
use crate::memory::Memory;

verus! {

/// RAM appears four times below $2000.
pub proof fn ram_is_mirrored(b: BusModel, addr: u16)
    requires
        addr < 0x0800,
    ensures
        b.load(addr) == b.load((addr + 0x0800) as u16),
        b.load(addr) == b.load((addr + 0x1000) as u16),
        b.load(addr) == b.load((addr + 0x1800) as u16),
{
    assert(addr as int % 2048 == addr);
    assert((addr + 0x0800) % 2048 == addr);
    assert((addr + 0x1000) % 2048 == addr);
    assert((addr + 0x1800) % 2048 == addr);
}

/// A byte stored in RAM is loaded back, through any of its mirrors; other cells keep
/// their bytes.
pub proof fn ram_reads_back(b: BusModel, addr: u16, val: u8, other: u16)
    requires
        b.ram.len() == 2048,
        addr < 0x2000,
        other < 0x2000,
    ensures
        b.after_store(addr, val).load(other) == (if addr % 2048 == other % 2048 {
            val
        } else {
            b.load(other)
        }),
{
    let after = BusModel { ram: b.ram.update(addr as int % 2048, val), ..b };
    assert(b.after_store(addr, val) == after);
    assert(after.load(other) == after.ram[other as int % 2048]);
    assert(b.load(other) == b.ram[other as int % 2048]);
}

/// A store to the cartridge's space selects a program bank, and does nothing else.
pub proof fn rom_store_selects(b: BusModel, addr: u16, val: u8)
    requires
        addr >= 0x8000,
    ensures
        b.after_store(addr, val) == (BusModel { cart: b.cart.selecting(val), ..b }),
{
}

/// A shift register after `n` reads.
pub open spec fn shifted_times(s: u8, n: nat) -> u8
    decreases n,
{
    if n == 0 {
        s
    } else {
        bus::shifted_out(shifted_times(s, (n - 1) as nat))
    }
}

/// Reads hand out the buttons from bit 0 up, and ones after them.
proof fn lemma_shifted_times(s: u8, n: nat)
    ensures
        n < 8 ==> shifted_times(s, n) % 2 == (if bits::bit8(s, n as int) {
            1u8
        } else {
            0
        }),
        n >= 8 ==> shifted_times(s, n) == 255,
    decreases n,
{
    let s1 = bus::shifted_out(s);
    let s2 = bus::shifted_out(s1);
    let s3 = bus::shifted_out(s2);
    let s4 = bus::shifted_out(s3);
    let s5 = bus::shifted_out(s4);
    let s6 = bus::shifted_out(s5);
    let s7 = bus::shifted_out(s6);
    let s8 = bus::shifted_out(s7);
    reveal_with_fuel(shifted_times, 9);
    assert({
        &&& s1 % 2 == s / 2 % 2
        &&& s2 % 2 == s / 4 % 2
        &&& s3 % 2 == s / 8 % 2
        &&& s4 % 2 == s / 16 % 2
        &&& s5 % 2 == s / 32 % 2
        &&& s6 % 2 == s / 64 % 2
        &&& s7 % 2 == s / 128 % 2
        &&& s8 == 255
    }) by (bit_vector)
        requires
            s1 == s / 2 + 128,
            s2 == s1 / 2 + 128,
            s3 == s2 / 2 + 128,
            s4 == s3 / 2 + 128,
            s5 == s4 / 2 + 128,
            s6 == s5 / 2 + 128,
            s7 == s6 / 2 + 128,
            s8 == s7 / 2 + 128,
    ;
    if n > 8 {
        lemma_shifted_times(s, (n - 1) as nat);
    }
}

/// The bus after the strobe is switched on and off.
pub open spec fn strobe_pulsed(b: BusModel) -> BusModel {
    b.after_store(0x4016, 1).after_store(0x4016, 0)
}

/// The bus after `n` reads of an address.
pub open spec fn read_times<M: Memory>(m: M, addr: u16, n: nat) -> M
    decreases n,
{
    if n == 0 {
        m
    } else {
        read_times(m, addr, (n - 1) as nat).after_load(addr)
    }
}

/// What read number `n` of a controller yields: the buttons A, B, Select, Start, Up,
/// Down, Left, Right, then ones.
pub open spec fn button_read(held: u8, n: nat) -> u8 {
    if n >= 8 || bits::bit8(held, n as int) {
        1
    } else {
        0
    }
}

/// After a strobe pulse, reads of a controller yield its buttons in order and then
/// ones. Controller 0 is read at $4016, controller 1 at $4017.
pub proof fn buttons_are_read_in_order(b: BusModel, player: int, n: nat)
    requires
        b.controller.len() == 2,
        player == 0 || player == 1,
    ensures
        read_times(strobe_pulsed(b), (0x4016 + player) as u16, n).load((0x4016 + player) as u16)
            == button_read(b.controller[player], n),
{
    let addr = (0x4016 + player) as u16;
    let pulsed = BusModel { controller_strobe: false, controller_shift: b.controller, ..b };
    assert(strobe_pulsed(b) == pulsed) by {
        let on = b.after_store(0x4016, 1);
        assert(on == (BusModel { controller_strobe: true, controller_shift: b.controller, ..b }));
        assert(!bits::bit8(0, 0));
    }
    lemma_pad_reads(pulsed, player, n);
    lemma_shifted_times(b.controller[player], n);
}

proof fn lemma_pad_reads(b: BusModel, player: int, n: nat)
    requires
        b.controller_shift.len() == 2,
        player == 0 || player == 1,
    ensures
        read_times(b, (0x4016 + player) as u16, n) == (BusModel {
            controller_shift: b.controller_shift.update(
                player,
                shifted_times(b.controller_shift[player], n),
            ),
            ..b
        }),
    decreases n,
{
    let addr = (0x4016 + player) as u16;
    if n == 0 {
        assert(b.controller_shift.update(player, b.controller_shift[player])
            =~= b.controller_shift);
    } else {
        lemma_pad_reads(b, player, (n - 1) as nat);
        let before = read_times(b, addr, (n - 1) as nat);
        assert(before.after_load(addr) == before.pad_read(player));
        assert(before.pad_read(player).controller_shift =~= b.controller_shift.update(
            player,
            shifted_times(b.controller_shift[player], n),
        ));
    }
}

/// The scanline-batched machine's bus after the strobe is switched on and off.
pub open spec fn batched_strobe_pulsed(b: contra::bus::BusModel) -> contra::bus::BusModel {
    b.after_store(0x4016, 1).after_store(0x4016, 0)
}

/// The same holds of the scanline-batched machine's bus.
pub proof fn batched_buttons_are_read_in_order(b: contra::bus::BusModel, player: int, n: nat)
    requires
        b.controller.len() == 2,
        player == 0 || player == 1,
    ensures
        read_times(batched_strobe_pulsed(b), (0x4016 + player) as u16, n).load(
            (0x4016 + player) as u16,
        ) == button_read(b.controller[player], n),
{
    let pulsed = contra::bus::BusModel {
        controller_strobe: false,
        controller_shift: b.controller,
        ..b
    };
    assert(batched_strobe_pulsed(b) == pulsed) by {
        let on = b.after_store(0x4016, 1);
        assert(on.controller_strobe && on.controller == b.controller);
        assert(on == (contra::bus::BusModel {
            controller_strobe: true,
            controller_shift: on.controller_shift,
            ..b
        }));
        assert(!bits::bit8(0, 0));
    }
    lemma_batched_pad_reads(pulsed, player, n);
    lemma_shifted_times(b.controller[player], n);
}

proof fn lemma_batched_pad_reads(b: contra::bus::BusModel, player: int, n: nat)
    requires
        b.controller_shift.len() == 2,
        !b.controller_strobe,
        player == 0 || player == 1,
    ensures
        read_times(b, (0x4016 + player) as u16, n) == (contra::bus::BusModel {
            controller_shift: b.controller_shift.update(
                player,
                shifted_times(b.controller_shift[player], n),
            ),
            ..b
        }),
    decreases n,
{
    let addr = (0x4016 + player) as u16;
    if n == 0 {
        assert(b.controller_shift.update(player, b.controller_shift[player])
            =~= b.controller_shift);
    } else {
        lemma_batched_pad_reads(b, player, (n - 1) as nat);
        let before = read_times(b, addr, (n - 1) as nat);
        assert(before.after_load(addr) == before.pad_read(player));
        assert(before.pad_read(player).controller_shift =~= b.controller_shift.update(
            player,
            shifted_times(b.controller_shift[player], n),
        ));
    }
}

/// While the strobe is on, the scanline-batched machine's controllers show button A
/// over and over.
pub proof fn strobe_shows_first_button(b: contra::bus::BusModel, n: nat)
    requires
        b.controller.len() == 2,
        b.controller_shift.len() == 2,
        b.controller_strobe,
    ensures
        read_times(b, 0x4016, n).load(0x4016) == b.controller[0] % 2,
{
    lemma_strobe_stays(b, n);
}

proof fn lemma_strobe_stays(b: contra::bus::BusModel, n: nat)
    requires
        b.controller_strobe,
    ensures
        read_times(b, 0x4016, n).controller_strobe,
        read_times(b, 0x4016, n).controller == b.controller,
    decreases n,
{
    if n > 0 {
        lemma_strobe_stays(b, (n - 1) as nat);
    }
}

/// A transfer from a page of RAM that starts at sprite address 0 makes sprite memory a
/// copy of the page, and changes nothing else but that no transfer is pending.
pub proof fn transfer_copies_page(b: BusModel)
    requires
        b.ram.len() == 2048,
        b.dma_page < 0x20,
        b.ppu.core.oam_addr == 0,
    ensures
        b.transferred().ppu.core.oam == b.ram.subrange(
            b.dma_page as int % 8 * 256,
            b.dma_page as int % 8 * 256 + 256,
        ),
        b.transferred().ram == b.ram,
        !b.transferred().dma_pending,
{
    reveal(BusModel::transferred);
    lemma_ram_loads(b, b.dma_page as int, 256);
    let data = memory::loads(b, b.dma_page * 256, 256);
    assert(b.transferred().ppu.core.oam =~= b.ram.subrange(
        b.dma_page as int % 8 * 256,
        b.dma_page as int % 8 * 256 + 256,
    ));
}

proof fn lemma_ram_loads(b: BusModel, page: int, n: nat)
    requires
        b.ram.len() == 2048,
        0 <= page < 0x20,
        n <= 256,
    ensures
        memory::after_loads(b, page * 256, n) == b,
        memory::loads(b, page * 256, n).len() == n,
        forall|i: int|
            0 <= i < n ==> #[trigger] memory::loads(b, page * 256, n)[i] == b.ram[page % 8 * 256
                + i],
    decreases n,
{
    if n > 0 {
        lemma_ram_loads(b, page, (n - 1) as nat);
        let addr = (page * 256 + n - 1) as u16;
        assert(addr < 0x2000);
        assert(addr as int % 2048 == page % 8 * 256 + n - 1);
        assert(b.load(addr) == b.ram[addr as int % 2048]);
        assert(b.after_load(addr) == b);
    }
}

} // verus!

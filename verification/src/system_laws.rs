//! What holds of the machine as a whole: the memory map, the cartridge image, the stack,
//! interrupts and keys.

use vstd::prelude::*;
use crate::bits;
use crate::bus;
use crate::bus::BusModel;
use crate::cartridge;
use crate::cartridge::{CartModel, Mirroring};
use crate::contra::recompiler;
use crate::cpu;
use crate::cpu::Cpu;
use crate::input;
use crate::machine::Machine;
use crate::memory::Memory;
use crate::nes::NesModel;

verus! {

/// $2000-$3FFF: eight registers, over and over.
#[verifier::rlimit(80)]
#[verifier::spinoff_prover]
pub proof fn picture_registers_are_mirrored(b: BusModel, r: u16, k: u16, val: u8)
    requires
        r < 8,
        k < 1024,
    ensures
        ({
            let first = (0x2000 + r) as u16;
            let other = (0x2000 + 8 * k + r) as u16;
            &&& b.load(first) == b.load(other)
            &&& b.after_load(first) == b.after_load(other)
            &&& b.after_store(first, val) == b.after_store(other, val)
        }),
{
    crate::video_laws::registers_repeat(b.ppu.core, r, k, val, b.cart);
    assert((0x2000 + 8 * k + r) % 8 == r as int);
}

/// $4000-$4017: all but the transfer and the controllers are sound registers. Between them
/// and the cartridge nothing answers.
pub proof fn sound_registers_are_mapped(b: BusModel, addr: u16, val: u8)
    requires
        0x4000 <= addr < 0x8000,
    ensures
        ({
            let after = b.after_store(addr, val);
            let sound = addr <= 0x4017 && addr != 0x4014 && addr != 0x4016;
            &&& sound ==> after == (BusModel { apu: b.apu.written(addr, val), ..b })
            &&& addr > 0x4017 ==> after == b && b.load(addr) == 0 && b.after_load(addr) == b
            &&& addr == 0x4015 ==> b.load(addr) == b.apu.status() && b.after_load(addr) == (
            BusModel { apu: b.apu.status_read(), ..b })
            &&& addr < 0x4015 ==> b.load(addr) == 0 && b.after_load(addr) == b
        }),
{
}

/// A write to $4014 starts the transfer of that page; to $4016, bit 0 strobes.
pub proof fn transfer_and_strobe(b: BusModel, val: u8)
    ensures
        b.after_store(0x4014, val) == (BusModel { dma_page: val, dma_pending: true, ..b }),
        ({
            let after = b.after_store(0x4016, val);
            &&& after.controller_strobe <==> val % 2 == 1
            &&& val % 2 == 1 ==> after.controller_shift == b.controller
            &&& val % 2 == 0 ==> after.controller_shift == b.controller_shift
            &&& after == (BusModel {
                controller_strobe: after.controller_strobe,
                controller_shift: after.controller_shift,
                ..b
            })
        }),
{
}

/// A controller hands its buttons out from the lowest bit on; ones follow.
pub proof fn buttons_shift_out(b: BusModel, i: int)
    requires
        0 <= i < 2,
        b.controller_shift.len() == 2,
    ensures
        ({
            let addr: u16 = if i == 0 {
                0x4016
            } else {
                0x4017
            };
            let held = b.controller_shift[i];
            let next = b.after_load(addr).controller_shift;
            &&& b.load(addr) == (if bits::bit8(held, 0) {
                1int
            } else {
                0
            })
            &&& next[i] == held / 2 + 128
            &&& next[1 - i] == b.controller_shift[1 - i]
        }),
{
}

/// A transfer that was pending stops the processor for 513 cycles, and only then.
pub proof fn transfers_take_time(nes: NesModel)
    requires
        nes.cpu.stall <= 513,
    ensures
        nes.bus.dma_pending ==> nes.transfer_done().cpu.stall == nes.cpu.stall + 513,
        !nes.bus.dma_pending ==> nes.transfer_done() == nes,
{
    reveal(NesModel::transfer_done);
}

/// The frame interrupt stays pending once it was raised; the sample channel gets the byte at
/// the address that it asked for.
#[verifier::rlimit(50)]
pub proof fn devices_report(nes: NesModel)
    ensures
        nes.interrupt_raised().cpu == (Cpu {
            irq_pending: nes.cpu.irq_pending || nes.bus.apu.frame_irq,
            ..nes.cpu
        }),
        nes.interrupt_raised().bus == nes.bus,
        match nes.bus.apu.dmc_read_pending {
            Some(addr) => {
                let after = nes.sample_fetched().bus.apu;
                &&& after.dmc.sample_buffer == nes.bus.load(addr)
                &&& !after.dmc.buffer_empty
                &&& after.dmc_read_pending is None
            },
            None => nes.sample_fetched() == nes,
        },
{
    reveal(NesModel::interrupt_raised);
    reveal(NesModel::sample_fetched);
}

/// What an image holds: behind sixteen bytes, and 512 more if bit 2 of the seventh says so,
/// come the banks of the program in order and then the patterns. At first bank 0 shows at
/// $8000 and the last bank at $C000. Bit 0 of the seventh byte says that the nametables
/// lie side by side.
#[verifier::rlimit(50)]
pub proof fn images_are_laid_out(data: Seq<u8>, k: int)
    requires
        cartridge::ines_defect(data) is None,
        0 <= k < 16384,
    ensures
        ({
            let cart = cartridge::ines_cart(data);
            let start: int = if bits::bit8(data[6], 2) {
                528
            } else {
                16
            };
            let banks = data[4] as int;
            &&& cart.prg_at((0x8000 + k) as u16) == data[start + k]
            &&& cart.prg_at((0xC000 + k) as u16) == data[start + (banks - 1) * 16384 + k]
            &&& data[5] > 0 && k < 8192 ==> cart.chr_at(k) == data[start + banks * 16384 + k]
            &&& data[5] == 0 && k < 8192 ==> cart.chr_at(k) == 0
            &&& cart.mirroring == Mirroring::Vertical <==> data[6] % 2 == 1
            &&& cart.banks == banks
        }),
{
    let banks = data[4] as int;
    assert((banks - 1) * 16384 + k < banks * 16384);
}

/// An image is refused if and only if it is too short for its header, is not marked as one,
/// has no program, or ends before what its header announces.
pub proof fn images_are_refused(data: Seq<u8>)
    ensures
        cartridge::ines_defect(data) is None <==> {
            &&& data.len() >= 16
            &&& data[0] == 78 && data[1] == 69 && data[2] == 83 && data[3] == 26
            &&& data[4] > 0
            &&& data.len() >= 16 + (if data[6] as int / 4 % 2 == 1 {
                512int
            } else {
                0
            }) + 16384 * data[4] + (if data[5] > 0 {
                8192int
            } else {
                0
            })
        },
{
}

/// The recompiler reads the same program as the processor: at $8000 the bank that it works
/// on, at $C000 the last.
pub proof fn recompiler_reads_the_image(data: Seq<u8>, bank: u8, addr: u16)
    requires
        cartridge::ines_defect(data) is None,
        bank < data[4],
        addr >= 0x8000,
    ensures
        recompiler::byte_at(recompiler::image_rom(data), bank as int, addr)
            == cartridge::ines_cart(data).selecting(bank).prg_at(addr),
{
    let banks = data[4] as int;
    vstd::arithmetic::div_mod::lemma_small_mod(bank as nat, banks as nat);
    assert(bank * 16384 + 16384 <= banks * 16384) by (nonlinear_arith)
        requires
            bank + 1 <= banks,
    ;
}

/// The recompiler starts where the processor can: at the handlers of reset, of the picture's
/// interrupt and of the other interrupts.
#[verifier::rlimit(50)]
pub proof fn recompiler_starts_at_handlers(data: Seq<u8>)
    requires
        cartridge::ines_defect(data) is None,
    ensures
        ({
            let cart = cartridge::ines_cart(data);
            let entries = recompiler::vectors(recompiler::image_rom(data));
            &&& entries.contains(bits::word(cart.prg_at(0xFFFA), cart.prg_at(0xFFFB)))
            &&& entries.contains(bits::word(cart.prg_at(0xFFFC), cart.prg_at(0xFFFD)))
            &&& entries.contains(bits::word(cart.prg_at(0xFFFE), cart.prg_at(0xFFFF)))
            &&& entries.len() == 3
        }),
{
    let banks = data[4] as int;
    let cart = cartridge::ines_cart(data);
    let rom = recompiler::image_rom(data);
    let entries = recompiler::vectors(rom);
    assert(banks * 16384 == (banks - 1) * 16384 + 16384);
    assert forall|k: int| 0 <= k < 16384 implies #[trigger] rom.last()[k] == cart.prg_at(
        (0xC000 + k) as u16,
    ) by {
        images_are_laid_out(data, k);
    }
    assert(rom.last()[0x3FFA] == cart.prg_at(0xFFFA));
    assert(rom.last()[0x3FFB] == cart.prg_at(0xFFFB));
    assert(rom.last()[0x3FFC] == cart.prg_at(0xFFFC));
    assert(rom.last()[0x3FFD] == cart.prg_at(0xFFFD));
    assert(rom.last()[0x3FFE] == cart.prg_at(0xFFFE));
    assert(rom.last()[0x3FFF] == cart.prg_at(0xFFFF));
    assert(entries[0] == bits::word(cart.prg_at(0xFFFC), cart.prg_at(0xFFFD)));
    assert(entries[1] == bits::word(cart.prg_at(0xFFFA), cart.prg_at(0xFFFB)));
    assert(entries[2] == bits::word(cart.prg_at(0xFFFE), cart.prg_at(0xFFFF)));
}

/// The stack fills page 1 from the top down: a push stores at the stack pointer and moves it
/// down, a pull moves it up and loads there. Of a word the high byte is pushed first.
pub proof fn stack_grows_down<M: Memory>(m: Machine<M>, val: u8, word: u16)
    ensures
        m.pushed(val).mem == m.mem.after_store((256 + m.cpu.sp) as u16, val),
        m.pushed(val).cpu == (Cpu { sp: (m.cpu.sp - 1) as u8, ..m.cpu }) || m.cpu.sp == 0,
        m.cpu.sp == 0 ==> m.pushed(val).cpu == (Cpu { sp: 255, ..m.cpu }),
        m.cpu.sp < 255 ==> m.top() == m.mem.load((257 + m.cpu.sp) as u16),
        m.cpu.sp == 255 ==> m.top() == m.mem.load(256),
        m.cpu.sp < 255 ==> m.pulled().cpu == (Cpu { sp: (m.cpu.sp + 1) as u8, ..m.cpu }),
        m.cpu.sp == 255 ==> m.pulled().cpu == (Cpu { sp: 0, ..m.cpu }),
        m.pushed_word(word) == m.pushed((word / 256) as u8).pushed((word % 256) as u8),
        m.top_word() == m.top() + 256 * m.pulled().top(),
{
    reveal(Machine::pushed);
    reveal(Machine::pulled);
    reveal(Machine::top);
    reveal(Machine::pushed_word);
    reveal(Machine::top_word);
}

/// An interrupt pushes the program counter and the status, disables further ones, takes
/// seven cycles and goes on where its vector says, low byte first.
#[verifier::rlimit(50)]
pub proof fn interrupts_are_taken<M: Memory>(m: Machine<M>, status: u8, vector: u16)
    requires
        vector < 0xFFFF,
        m.cpu.cycles <= u64::MAX - 7,
    ensures
        ({
            let saved = m.pushed((m.cpu.pc / 256) as u8).pushed((m.cpu.pc % 256) as u8).pushed(
                status,
            );
            let after = m.interrupted(status, vector);
            &&& after.cpu.pc == saved.mem.load(vector) + 256 * saved.mem.after_load(vector).load(
                (vector + 1) as u16,
            )
            &&& after.cpu.i
            &&& after.cpu.cycles == m.cpu.cycles + 7
            &&& after.cpu.sp == saved.cpu.sp
            &&& after.cpu.a == m.cpu.a && after.cpu.x == m.cpu.x && after.cpu.y == m.cpu.y
            &&& after.cpu.c == m.cpu.c && after.cpu.z == m.cpu.z && after.cpu.n == m.cpu.n
            &&& after.cpu.v == m.cpu.v && after.cpu.d == m.cpu.d
        }),
{
    reveal(Machine::interrupted);
    reveal(Machine::pushed_word);
    reveal(Machine::pushed);
}

/// Which interrupt a step takes: the picture's first, through $FFFA, even if interrupts are
/// disabled; another only if they are enabled, through $FFFE; else none.
pub proof fn interrupts_are_chosen<M: Memory>(m: Machine<M>)
    ensures
        m.cpu.nmi_pending ==> m.serviced() == m.set(
            Cpu { nmi_pending: false, ..m.cpu },
        ).interrupted(m.cpu.status_byte(), 65530),
        !m.cpu.nmi_pending && m.cpu.irq_pending && !m.cpu.i ==> m.serviced() == m.interrupted(
            m.cpu.status_byte(),
            65534,
        ),
        !m.cpu.nmi_pending && (m.cpu.i || !m.cpu.irq_pending) ==> m.serviced() == m,
{
}

/// While the processor is stopped a step passes one cycle and does nothing else.
pub proof fn stopped_steps<M: Memory>(m: Machine<M>)
    requires
        m.cpu.stall > 0,
        m.cpu.cycles < u64::MAX,
    ensures
        m.stepped().mem == m.mem,
        m.stepped().cpu == (Cpu {
            stall: (m.cpu.stall - 1) as u32,
            cycles: (m.cpu.cycles + 1) as u64,
            ..m.cpu
        }),
{
    reveal(Machine::stepped);
}

/// Reset goes on where $FFFC says, with interrupts disabled and the stack pointer at $FD.
pub proof fn reset_starts<M: Memory>(m: Machine<M>)
    ensures
        m.reset().cpu.pc == m.mem.load(65532) + 256 * m.mem.after_load(65532).load(65533),
        m.reset().cpu.sp == 253,
        m.reset().cpu.i,
        m.reset().cpu.cycles == 0,
        m.reset().cpu.a == m.cpu.a && m.reset().cpu.x == m.cpu.x && m.reset().cpu.y == m.cpu.y,
{
}

/// The key that presses a button: w, s, a and d steer, j jumps and k shoots.
pub open spec fn key_of(button: int) -> u8 {
    if button == 0 {
        106
    } else if button == 1 {
        107
    } else if button == 4 {
        119
    } else if button == 5 {
        115
    } else if button == 6 {
        97
    } else {
        100
    }
}

/// A small letter presses its button and the capital releases it; steering left releases
/// right and the other way round. No other button changes.
#[verifier::rlimit(50)]
pub proof fn keys_move_buttons(held: u8, button: int, other: int)
    requires
        button == 0 || button == 1 || 4 <= button < 8,
        0 <= other < 8,
    ensures
        ({
            let down = input::held_after_key(held, key_of(button));
            let up = input::held_after_key(held, (key_of(button) - 32) as u8);
            &&& bits::bit8(down, other) <==> if other == button {
                true
            } else if button + other == 13 && button >= 6 {
                false
            } else {
                bits::bit8(held, other)
            }
            &&& bits::bit8(up, other) <==> other != button && bits::bit8(held, other)
        }),
{
    if button == 6 {
        input::button_changes_its_bit(held, 6, true, other);
        input::button_changes_its_bit(bus::pad_set(held, 6, true), 7, false, other);
    } else if button == 7 {
        input::button_changes_its_bit(held, 7, true, other);
        input::button_changes_its_bit(bus::pad_set(held, 7, true), 6, false, other);
    } else {
        input::button_changes_its_bit(held, button as u8, true, other);
    }
    input::button_changes_its_bit(held, button as u8, false, other);
}

/// Return and line feed press Start, the blank presses Select; keys without a button do
/// nothing.
#[verifier::rlimit(50)]
pub proof fn other_keys(held: u8, key: u8, other: int)
    requires
        0 <= other < 8,
    ensures
        key == 13 || key == 10 ==> (bits::bit8(input::held_after_key(held, key), other) <==> other
            == 3 || bits::bit8(held, other)),
        key == 32 ==> (bits::bit8(input::held_after_key(held, key), other) <==> other == 2
            || bits::bit8(held, other)),
        key > 119 || key == 27 ==> input::held_after_key(held, key) == held,
{
    input::button_changes_its_bit(held, 3, true, other);
    input::button_changes_its_bit(held, 2, true, other);
}

/// The code for thirty lives: up, up, down, down, left, right, left, right, B, A, and Start;
/// each button is pressed for four frames of ten, from frame 250 on.
pub proof fn script_enters_the_code(n: int)
    requires
        0 <= n < 11,
    ensures
        ({
            let press = input::planned_event(2 * n);
            let release = input::planned_event(2 * n + 1);
            &&& press.frame == 250 + 10 * n && press.pressed
            &&& release.frame == 254 + 10 * n && !release.pressed
            &&& press.button == release.button
            &&& n < 2 ==> press.button == 4
            &&& n == 2 || n == 3 ==> press.button == 5
            &&& n == 4 || n == 6 ==> press.button == 6
            &&& n == 5 || n == 7 ==> press.button == 7
            &&& n == 8 ==> press.button == 1
            &&& n == 9 ==> press.button == 0
            &&& n == 10 ==> press.button == 3
        }),
{
    assert(input::KONAMI[0] == 4 && input::KONAMI[1] == 4 && input::KONAMI[2] == 5
        && input::KONAMI[3] == 5 && input::KONAMI[4] == 6 && input::KONAMI[5] == 7
        && input::KONAMI[6] == 6 && input::KONAMI[7] == 7 && input::KONAMI[8] == 1
        && input::KONAMI[9] == 0 && input::KONAMI[10] == 3);
}

/// Afterwards Right is held from frame 560 on, and every 45 frames from 610 on comes a jump
/// of eight frames and, three frames later, a shot of four.
pub proof fn script_plays_on(k: int)
    requires
        0 <= k < 500,
    ensures
        input::planned_event(22) == (input::InputEvent { frame: 560, button: 7, pressed: true }),
        ({
            let t = 610 + 45 * k;
            let n = 23 + 4 * k;
            &&& input::planned_event(n) == (input::InputEvent {
                frame: t as u32,
                button: 0,
                pressed: true,
            })
            &&& input::planned_event(n + 1) == (input::InputEvent {
                frame: (t + 8) as u32,
                button: 0,
                pressed: false,
            })
            &&& input::planned_event(n + 2) == (input::InputEvent {
                frame: (t + 3) as u32,
                button: 1,
                pressed: true,
            })
            &&& input::planned_event(n + 3) == (input::InputEvent {
                frame: (t + 7) as u32,
                button: 1,
                pressed: false,
            })
        }),
{
    let n = 4 * k;
    assert(n / 4 == k && (n + 1) / 4 == k && (n + 2) / 4 == k && (n + 3) / 4 == k);
    assert(n % 4 == 0 && (n + 1) % 4 == 1 && (n + 2) % 4 == 2 && (n + 3) % 4 == 3);
}

/// Of the events of a button the last one counts; buttons without events stay.
pub proof fn last_event_counts(held: u8, seq: Seq<input::InputEvent>, from: int, to: int, b: int)
    requires
        0 <= from <= to <= seq.len(),
        input::valid_events(seq),
        0 <= b < 8,
    ensures
        (forall|i: int| from <= i < to ==> (#[trigger] seq[i]).button != b) ==> (bits::bit8(
            input::held_after(held, seq, from, to),
            b,
        ) <==> bits::bit8(held, b)),
        forall|i: int|
            from <= i < to && (#[trigger] seq[i]).button == b && (forall|j: int|
                i < j < to ==> (#[trigger] seq[j]).button != b) ==> (bits::bit8(
                input::held_after(held, seq, from, to),
                b,
            ) <==> seq[i].pressed),
    decreases to - from,
{
    if from < to {
        last_event_counts(held, seq, from, to - 1, b);
        let before = input::held_after(held, seq, from, to - 1);
        input::button_changes_its_bit(before, seq[to - 1].button, seq[to - 1].pressed, b);
    }
}

/// At power-on memory and registers are clear, the stack pointer is at $FD, interrupts are
/// disabled and every channel is silent.
#[verifier::rlimit(50)]
pub proof fn power_on(cart: CartModel, i: int)
    requires
        0 <= i < 2048,
    ensures
        ({
            let b = bus::bus_at_power_on(cart);
            let c = cpu::cpu_at_power_on();
            &&& b.ram.len() == 2048 && b.ram[i] == 0
            &&& b.cart == cart
            &&& b.ppu.core.nt_ram[i] == 0 && b.ppu.core.status == 0 && b.ppu.core.ctrl == 0
            &&& b.ppu.core.mask == 0 && b.ppu.core.v == 0 && b.ppu.core.t == 0
            &&& b.ppu.core.scanline == 0 && b.ppu.core.dot == 0 && b.ppu.core.frame_count == 0
            &&& b.apu.levels().pulse1 == 0 && b.apu.levels().pulse2 == 0 && b.apu.levels().triangle
                == 0
            &&& b.apu.levels().noise == 0 && b.apu.levels().dmc == 0
            &&& b.apu.status() == 0
            &&& b.controller[0] == 0 && b.controller[1] == 0 && !b.controller_strobe
            &&& !b.dma_pending
            &&& c.sp == 253 && c.i && !c.d && c.a == 0 && c.x == 0 && c.y == 0
            &&& !c.nmi_pending && !c.irq_pending && c.stall == 0 && c.cycles == 0
        }),
{
}

} // verus!

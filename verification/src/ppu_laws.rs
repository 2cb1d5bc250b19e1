//! What holds of the picture processor.

use vstd::prelude::*;
use crate::bits;
use crate::cartridge;
use crate::cartridge::CartModel;
use crate::contra::ppu::ScanModel;
use crate::contra::sprite;
use crate::line_buffer;
use crate::ppu::PpuModel;
use crate::ppu_core;
use crate::ppu_core::CoreModel;
use crate::sprite_unit;

verus! {

/// A byte written through $2007 is at that address afterwards.
pub proof fn video_memory_reads_back(core: CoreModel, val: u8, cart: CartModel)
    requires
        core.wf(),
        cart.wf(),
    ensures
        core.vram_stored(val, cart).vram(core.v as int, core.cart_stored(val, cart)) == val,
{
    let a = core.v as int % 16384;
    let slot = cartridge::nametable_slot(cart.mirroring, (0x2000 + a % 4096) as u16);
    assert(0 <= slot < 2048);
    if a < 0x2000 {
        assert(a % 8192 == a);
        assert((a as u16) as int % 8192 == a);
    }
}

/// Palette memory repeats every 32 bytes, and the first entry of each sprite palette is
/// that of a background palette.
pub proof fn palette_mirrors(core: CoreModel, cart: CartModel, addr: int, k: int)
    requires
        0x3F00 <= addr < 0x3FE0,
        0 <= k < 4,
    ensures
        core.vram(addr, cart) == core.vram(addr + 32, cart),
        core.vram(0x3F10 + 4 * k, cart) == core.vram(0x3F00 + 4 * k, cart),
{
    assert(addr % 16384 == addr && (addr + 32) % 16384 == addr + 32);
    assert((addr + 32) % 32 == addr % 32);
    assert((0x3F10 + 4 * k) % 16384 == 0x3F10 + 4 * k);
    assert((0x3F00 + 4 * k) % 16384 == 0x3F00 + 4 * k);
    assert((0x3F10 + 4 * k) % 32 == 16 + 4 * k && (0x3F00 + 4 * k) % 32 == 4 * k);
}

/// Two writes to $2006 set the video address: high byte first, of which six bits count.
pub proof fn address_pair(core: CoreModel, hi: u8, lo: u8, cart: CartModel)
    requires
        !core.w,
    ensures
        ({
            let after = core.register_written(0x2006, hi, cart).register_written(0x2006, lo, cart);
            after.v == hi % 64 * 256 + lo && after.t == after.v && !after.w
        }),
{
    let one = core.register_written(0x2006, hi, cart);
    assert(one.w && one.t == core.t % 256 + hi % 64 * 256);
    assert(one.t - one.t % 256 == hi % 64 * 256);
    let two = one.register_written(0x2006, lo, cart);
    assert(two.t == one.t - one.t % 256 + lo);
}

/// Two writes to $2005 set the scroll position: tile and pixel, across and then down.
pub proof fn scroll_pair(core: CoreModel, x: u8, y: u8, cart: CartModel)
    requires
        !core.w,
    ensures
        ({
            let after = core.register_written(0x2005, x, cart).register_written(0x2005, y, cart);
            &&& ppu_core::coarse_x(after.t) == x / 8
            &&& after.x == x % 8
            &&& ppu_core::coarse_y(after.t) == y / 8
            &&& ppu_core::fine_y(after.t) == y % 8
            &&& ppu_core::nametable(after.t) == ppu_core::nametable(core.t)
            &&& after.v == core.v
            &&& !after.w
        }),
{
    let t0 = core.t;
    let t1 = ppu_core::with_coarse_x(t0, x as int / 8);
    lemma_with_coarse_x(t0, x as int / 8);
    lemma_with_y(t1, y as int / 8, y as int % 8);
}

proof fn lemma_with_coarse_x(t: u16, n: int)
    requires
        0 <= n < 32,
    ensures
        ppu_core::coarse_x(ppu_core::with_coarse_x(t, n)) == n,
        ppu_core::nametable(ppu_core::with_coarse_x(t, n)) == ppu_core::nametable(t),
{
    assert(t - t as int % 32 + n == t as int / 32 * 32 + n);
}

proof fn lemma_with_y(t: u16, row: int, fine: int)
    requires
        0 <= row < 32,
        0 <= fine < 8,
    ensures
        ppu_core::coarse_x(ppu_core::with_y(t, row, fine)) == ppu_core::coarse_x(t),
        ppu_core::coarse_y(ppu_core::with_y(t, row, fine)) == row,
        ppu_core::fine_y(ppu_core::with_y(t, row, fine)) == fine,
        ppu_core::nametable(ppu_core::with_y(t, row, fine)) == ppu_core::nametable(t),
{
    let r = row as u16;
    let f = fine as u16;
    let w = ppu_core::with_y(t, row, fine);
    assert(w == t - t / 32 % 32 * 32 - t / 4096 % 8 * 4096 + r * 32 + f * 4096) by {
        assert(0 <= t - t / 32 % 32 * 32 - t / 4096 % 8 * 4096 + r * 32 + f * 4096 <= 65535)
            by (bit_vector)
            requires
                r < 32,
                f < 8,
        ;
    }
    assert(w % 32 == t % 32 && w / 32 % 32 == r && w / 4096 % 8 == f && w / 1024 % 4 == t / 1024 % 4)
        by (bit_vector)
        requires
            r < 32,
            f < 8,
            w == t - t / 32 % 32 * 32 - t / 4096 % 8 * 4096 + r * 32 + f * 4096,
    ;
}

/// Reading $2002 reports vertical blanking, acknowledges it and makes the next write to
/// $2005 or $2006 the first of a pair.
pub proof fn status_read_acknowledges(core: CoreModel, cart: CartModel)
    ensures
        ({
            let after = core.register_read(0x2002, cart);
            &&& bits::bit8(core.register_value(0x2002, cart), 7) == bits::bit8(core.status, 7)
            &&& !bits::bit8(after.register_value(0x2002, cart), 7)
            &&& !after.nmi_occurred
            &&& !after.w
        }),
{
    let s = core.status;
    let v = core.register_value(0x2002, cart);
    assert(v == s / 32 * 32 + core.open_bus % 32);
    let after = core.register_read(0x2002, cart);
    assert(after.status == s % 128);
}

/// A transfer that starts at sprite address 0 makes sprite memory a copy of the page.
pub proof fn transfer_copies(core: CoreModel, data: Seq<u8>)
    requires
        core.oam_addr == 0,
        data.len() == 256,
    ensures
        core.oam_filled(data).oam == data,
        core.oam_filled(data) == (CoreModel { oam: data, ..core }),
{
    assert(core.oam_filled(data).oam =~= data);
}

/// 64 steps to the right lead back to the same tile.
pub proof fn scrolling_wraps(v: u16)
    ensures
        steps_right(v, 64) == v,
{
    reveal(rest_of);
    reveal(across);
    lemma_steps_right(v, 64);
    let w = steps_right(v, 64);
    assert(across(w) == across(v));
    assert(w == rest_of(w) + ppu_core::coarse_x(w) + ppu_core::nametable_x(w) * 1024);
}

/// The video address after `n` steps to the right.
pub open spec fn steps_right(v: u16, n: nat) -> u16
    decreases n,
{
    if n == 0 {
        v
    } else {
        ppu_core::next_x(steps_right(v, (n - 1) as nat))
    }
}

/// Everything of a video address but the horizontal position.
#[verifier::opaque]
pub open spec fn rest_of(v: u16) -> int {
    v - ppu_core::coarse_x(v) - ppu_core::nametable_x(v) * 1024
}

/// Tiles from the left edge of the first nametable.
#[verifier::opaque]
pub open spec fn across(v: u16) -> int {
    ppu_core::nametable_x(v) * 32 + ppu_core::coarse_x(v)
}

/// One step to the right.
proof fn lemma_step_right(v: u16)
    ensures
        rest_of(ppu_core::next_x(v)) == rest_of(v),
        across(ppu_core::next_x(v)) == (across(v) + 1) % 64,
{
    reveal(rest_of);
    reveal(across);
    let w = ppu_core::next_x(v);
    if v % 32 < 31 {
        assert(w == v + 1);
        assert(w % 32 == v % 32 + 1 && w / 1024 % 2 == v / 1024 % 2) by (bit_vector)
            requires
                v % 32 < 31,
                w == v + 1,
        ;
    } else if v / 1024 % 2 == 0 {
        assert((v - 31) / 1024 % 2 == v as int / 1024 % 2);
        assert(v - 31 + 1024 <= 65535) by (bit_vector)
            requires
                v / 1024 % 2 == 0,
        ;
        assert(w == v - 31 + 1024);
        assert(w % 32 == 0 && w / 1024 % 2 == 1) by (bit_vector)
            requires
                v % 32 == 31,
                v / 1024 % 2 == 0,
                w == v - 31 + 1024,
        ;
    } else {
        assert((v - 31) / 1024 % 2 == v as int / 1024 % 2);
        assert(v - 31 - 1024 >= 0);
        assert(w == v - 31 - 1024);
        assert(w % 32 == 0 && w / 1024 % 2 == 0) by (bit_vector)
            requires
                v % 32 == 31,
                v / 1024 % 2 == 1,
                w == v - 31 - 1024,
        ;
    }
}

/// The horizontal position counts modulo 64 tiles; nothing else moves.
proof fn lemma_steps_right(v: u16, n: nat)
    ensures
        rest_of(steps_right(v, n)) == rest_of(v),
        across(steps_right(v, n)) == (across(v) + n) % 64,
    decreases n,
{
    if n == 0 {
        assert(0 <= across(v) < 64) by {
            reveal(across);
        }
    } else {
        let before = steps_right(v, (n - 1) as nat);
        lemma_steps_right(v, (n - 1) as nat);
        lemma_step_right(before);
        assert(steps_right(v, n) == ppu_core::next_x(before));
        let a = across(v) + n - 1;
        assert((a % 64 + 1) % 64 == (a + 1) % 64);
    }
}

/// The video address after `n` steps down.
pub open spec fn steps_down(v: u16, n: nat) -> u16
    decreases n,
{
    if n == 0 {
        v
    } else {
        ppu_core::next_y(steps_down(v, (n - 1) as nat))
    }
}

/// Everything of a video address but the vertical position.
#[verifier::opaque]
pub open spec fn beside(v: u16) -> int {
    v - ppu_core::coarse_y(v) * 32 - ppu_core::nametable_y(v) * 2048 - ppu_core::fine_y(v) * 4096
}

/// Pixel rows from the top of the first nametable.
#[verifier::opaque]
pub open spec fn down(v: u16) -> int {
    ppu_core::nametable_y(v) * 240 + ppu_core::coarse_y(v) * 8 + ppu_core::fine_y(v)
}

/// A video address is made of its parts.
proof fn lemma_parts(v: u16)
    ensures
        v == v as int / 32768 * 32768 + ppu_core::fine_y(v) * 4096 + ppu_core::nametable_y(v) * 2048
            + ppu_core::nametable_x(v) * 1024 + ppu_core::coarse_y(v) * 32 + ppu_core::coarse_x(v),
{
    assert(v == v / 32768 * 32768 + v / 4096 % 8 * 4096 + v / 2048 % 2 * 2048 + v / 1024 % 2 * 1024
        + v / 32 % 32 * 32 + v % 32) by (bit_vector);
}

/// The parts of a video address one row further down.
#[verifier::spinoff_prover]
proof fn lemma_next_y(v: u16)
    ensures
        ({
            let w = ppu_core::next_y(v);
            let f = ppu_core::fine_y(v);
            let y = ppu_core::coarse_y(v);
            let n = ppu_core::nametable_y(v);
            &&& w as int / 32768 == v as int / 32768
            &&& ppu_core::coarse_x(w) == ppu_core::coarse_x(v)
            &&& ppu_core::nametable_x(w) == ppu_core::nametable_x(v)
            &&& ppu_core::fine_y(w) == (if f < 7 {
                f + 1
            } else {
                0
            })
            &&& ppu_core::coarse_y(w) == (if f < 7 {
                y
            } else if y == 29 || y == 31 {
                0
            } else {
                y + 1
            })
            &&& ppu_core::nametable_y(w) == (if f == 7 && y == 29 {
                1 - n
            } else {
                n
            })
        }),
{
    let w = ppu_core::next_y(v);
    let f = (v / 4096 % 8) as u16;
    let y = (v / 32 % 32) as u16;
    let n = (v / 2048 % 2) as u16;
    lemma_row_bounds(v);
    assert(f < 7 ==> w == v + 4096);
    assert(f == 7 && y == 29 && n == 0 ==> w == v - 7 * 4096 - 29 * 32 + 2048);
    assert(f == 7 && y == 29 && n == 1 ==> w == v - 7 * 4096 - 29 * 32 - 2048);
    assert(f == 7 && y == 31 ==> w == v - 7 * 4096 - 31 * 32);
    assert(f == 7 && y != 29 && y != 31 ==> w == v - 7 * 4096 + 32);
    assert({
        &&& w / 32768 == v / 32768
        &&& w % 32 == v % 32
        &&& w / 1024 % 2 == v / 1024 % 2
        &&& f < 7 ==> w / 4096 % 8 == f + 1 && w / 32 % 32 == y && w / 2048 % 2 == n
        &&& f == 7 ==> w / 4096 % 8 == 0
        &&& f == 7 && (y == 29 || y == 31) ==> w / 32 % 32 == 0
        &&& f == 7 && y != 29 && y != 31 ==> w / 32 % 32 == y + 1
        &&& f == 7 && y == 29 ==> w / 2048 % 2 == 1 - n
        &&& f == 7 && y != 29 ==> w / 2048 % 2 == n
    }) by (bit_vector)
        requires
            f == v / 4096 % 8,
            y == v / 32 % 32,
            n == v / 2048 % 2,
            f < 7 ==> w == v + 4096,
            f == 7 && y == 29 && n == 0 ==> w == v - 7 * 4096 - 29 * 32 + 2048,
            f == 7 && y == 29 && n == 1 ==> w == v - 7 * 4096 - 29 * 32 - 2048,
            f == 7 && y == 31 ==> w == v - 7 * 4096 - 31 * 32,
            f == 7 && y != 29 && y != 31 ==> w == v - 7 * 4096 + 32,
    ;
}

/// The results of a step down fit.
proof fn lemma_row_bounds(v: u16)
    ensures
        v / 4096 % 8 < 7 ==> v + 4096 <= 65535,
        v / 4096 % 8 == 7 && v / 32 % 32 == 29 ==> v - 7 * 4096 - 29 * 32 >= v / 2048 % 2 * 2048,
        v / 4096 % 8 == 7 && v / 32 % 32 == 29 ==> (v - 7 * 4096 - 29 * 32) as u16 / 2048 % 2 == v
            / 2048 % 2,
        v / 4096 % 8 == 7 && v / 32 % 32 == 31 ==> v - 7 * 4096 - 31 * 32 >= 0,
        v / 4096 % 8 == 7 ==> v - 7 * 4096 >= 0,
{
    assert({
        &&& v / 4096 % 8 < 7 ==> v + 4096 <= 65535
        &&& v / 4096 % 8 == 7 && v / 32 % 32 == 29 ==> v - 7 * 4096 - 29 * 32 >= v / 2048 % 2 * 2048
        &&& v / 4096 % 8 == 7 && v / 32 % 32 == 29 ==> (v - 7 * 4096 - 29 * 32) as u16 / 2048 % 2
            == v / 2048 % 2
        &&& v / 4096 % 8 == 7 && v / 32 % 32 == 31 ==> v - 7 * 4096 - 31 * 32 >= 0
        &&& v / 4096 % 8 == 7 ==> v - 7 * 4096 >= 0
    }) by (bit_vector);
}

/// One step down from a row of tiles.
proof fn lemma_step_down(v: u16)
    requires
        ppu_core::coarse_y(v) <= 29,
    ensures
        ppu_core::coarse_y(ppu_core::next_y(v)) <= 29,
        beside(ppu_core::next_y(v)) == beside(v),
        down(ppu_core::next_y(v)) == (down(v) + 1) % 480,
{
    reveal(beside);
    reveal(down);
    lemma_next_y(v);
    lemma_parts(v);
    lemma_parts(ppu_core::next_y(v));
}

/// The vertical position counts modulo two nametables of 240 rows; nothing else moves.
proof fn lemma_steps_down(v: u16, n: nat)
    requires
        ppu_core::coarse_y(v) <= 29,
    ensures
        ppu_core::coarse_y(steps_down(v, n)) <= 29,
        beside(steps_down(v, n)) == beside(v),
        down(steps_down(v, n)) == (down(v) + n) % 480,
    decreases n,
{
    if n == 0 {
        assert(0 <= down(v) < 480) by {
            reveal(down);
        }
    } else {
        let before = steps_down(v, (n - 1) as nat);
        lemma_steps_down(v, (n - 1) as nat);
        lemma_step_down(before);
        assert(steps_down(v, n) == ppu_core::next_y(before));
        let a = down(v) + n - 1;
        assert((a % 480 + 1) % 480 == (a + 1) % 480);
    }
}

/// Addresses that differ by whole nametables vertically, or not at all.
proof fn lemma_same_row(v: u16, w: u16)
    requires
        ppu_core::coarse_y(v) <= 29,
        ppu_core::coarse_y(w) <= 29,
        beside(w) == beside(v),
    ensures
        down(w) == down(v) ==> w == v,
        down(w) == (down(v) + 240) % 480 ==> w == ppu_core::flip_y(v as int),
{
    reveal(beside);
    reveal(down);
    let (ny, cy, fy) = (ppu_core::nametable_y(v), ppu_core::coarse_y(v), ppu_core::fine_y(v));
    let (my, dy, gy) = (ppu_core::nametable_y(w), ppu_core::coarse_y(w), ppu_core::fine_y(w));
    lemma_rows(ny, cy, fy, my, dy, gy);
}

/// A row number determines its parts.
proof fn lemma_rows(ny: int, cy: int, fy: int, my: int, dy: int, gy: int)
    requires
        0 <= ny < 2,
        0 <= my < 2,
        0 <= cy < 30,
        0 <= dy < 30,
        0 <= fy < 8,
        0 <= gy < 8,
    ensures
        my * 240 + dy * 8 + gy == ny * 240 + cy * 8 + fy ==> my == ny && dy == cy && gy == fy,
        my * 240 + dy * 8 + gy == (ny * 240 + cy * 8 + fy + 240) % 480 ==> my == 1 - ny && dy == cy
            && gy == fy,
{
}

/// 240 steps down lead to the same row of the other nametable.
pub proof fn scrolling_down_changes_nametable(v: u16)
    requires
        ppu_core::coarse_y(v) <= 29,
    ensures
        steps_down(v, 240) == ppu_core::flip_y(v as int),
        steps_down(v, 480) == v,
{
    lemma_steps_down(v, 240);
    lemma_steps_down(v, 480);
    assert(0 <= down(v) < 480) by {
        reveal(down);
    }
    lemma_same_row(v, steps_down(v, 240));
    lemma_same_row(v, steps_down(v, 480));
}

/// Below the last row of attributes comes the first row of the same nametable.
pub proof fn attribute_rows_wrap(v: u16)
    requires
        ppu_core::coarse_y(v) == 31,
        ppu_core::fine_y(v) == 7,
    ensures
        ppu_core::next_y(v) == v - 7 * 4096 - 31 * 32,
        ppu_core::nametable(ppu_core::next_y(v)) == ppu_core::nametable(v),
{
    lemma_row_bounds(v);
    lemma_next_y(v);
    let w = ppu_core::next_y(v);
    assert(v as int / 1024 % 4 == ppu_core::nametable_y(v) * 2 + ppu_core::nametable_x(v));
    assert(w as int / 1024 % 4 == ppu_core::nametable_y(w) * 2 + ppu_core::nametable_x(w));
}

/// A step down never moves the horizontal position.
pub proof fn step_down_stays_in_column(v: u16)
    ensures
        ppu_core::coarse_x(ppu_core::next_y(v)) == ppu_core::coarse_x(v),
        ppu_core::nametable_x(ppu_core::next_y(v)) == ppu_core::nametable_x(v),
{
    lemma_next_y(v);
}

/// What survives of a frame's timing while it is drawn: the mask and which frame it is.
proof fn lemma_tick_keeps(ppu: PpuModel, cart: CartModel)
    requires
        ppu.core.wf(),
    ensures
        ppu.ticked(cart).core.wf(),
        ppu.ticked(cart).core.mask == ppu.core.mask,
        ppu.ticked(cart).core.at_same_dot(ppu.core.advanced()),
        ppu.ticked(cart).core.odd_frame == ppu.core.advanced().odd_frame,
{
    reveal(PpuModel::ticked);
    let counted = ppu.with_core(ppu.core.countdown());
    lemma_rendered_keeps(counted, cart);
}

/// Drawing and fetching a dot leave mask, frame and position alone.
proof fn lemma_rendered_keeps(ppu: PpuModel, cart: CartModel)
    requires
        ppu.core.wf(),
    ensures
        ppu.rendered(cart).core.wf(),
        ppu.rendered(cart).core.mask == ppu.core.mask,
        ppu.rendered(cart).core.odd_frame == ppu.core.odd_frame,
        ppu.rendered(cart).core.at_same_dot(ppu.core),
        same_interrupt(ppu.rendered(cart).core, ppu.core),
{
    lemma_background_keeps(ppu.core, cart);
    lemma_background_keeps(ppu.pixel_drawn().core, cart);
}

proof fn lemma_background_keeps(core: CoreModel, cart: CartModel)
    requires
        core.wf(),
    ensures
        core.background_cycle(cart).wf(),
        core.background_cycle(cart).mask == core.mask,
        core.background_cycle(cart).odd_frame == core.odd_frame,
        core.background_cycle(cart).at_same_dot(core),
        same_interrupt(core.background_cycle(cart), core),
{
}

/// The same state of the interrupt signal.
pub open spec fn same_interrupt(a: CoreModel, b: CoreModel) -> bool {
    &&& a.nmi_output == b.nmi_output
    &&& a.nmi_occurred == b.nmi_occurred
    &&& a.nmi_line == b.nmi_line
    &&& a.nmi_delay == b.nmi_delay
}

/// With interrupts enabled, the one that vertical blanking raises reaches the processor
/// fifteen dots after it begins, and not before.
pub proof fn blanking_interrupts(ppu: PpuModel, cart: CartModel)
    requires
        ppu.core.wf(),
        ppu.core.scanline == 241,
        ppu.core.dot == 1,
        ppu.core.nmi_output,
        !ppu.core.nmi_line,
    ensures
        ({
            let begun = ppu.ticked(cart);
            &&& bits::bit8(begun.core.status, 7)
            &&& !begun.nmi_within(14, cart)
            &&& begun.nmi_within(15, cart)
        }),
{
    reveal(PpuModel::ticked);
    let counted = ppu.with_core(ppu.core.countdown());
    lemma_rendered_keeps(counted, cart);
    let begun = ppu.ticked(cart);
    assert(begun.core.nmi_delay == 15 && begun.core.nmi_output && begun.core.nmi_occurred);
    assert(begun.core.scanline == 241 && begun.core.dot == 2 && begun.core.wf());
    let status = (if ppu.core.rendering() {
        counted.rendered(cart)
    } else {
        counted
    }).core.status;
    assert(begun.core.status == bits::with_bit(status, 7));
    bits::lemma_set_bits(status);
    bits::lemma_bit8(status | 0x80);
    assert((status | 0x80) & 0x80 != 0) by (bit_vector);
    lemma_counting_down(begun, cart, 14);
}

/// The interrupt signal on its way.
proof fn lemma_counting_down(ppu: PpuModel, cart: CartModel, n: nat)
    requires
        ppu.core.wf(),
        ppu.core.scanline == 241,
        ppu.core.dot == 2,
        ppu.core.nmi_output,
        ppu.core.nmi_occurred,
        ppu.core.nmi_delay == 15,
        n <= 14,
    ensures
        ({
            let c = ppu.ticked_times(n, cart).core;
            &&& c.wf()
            &&& c.scanline == 241
            &&& c.dot == 2 + n
            &&& c.nmi_output
            &&& c.nmi_occurred
            &&& c.nmi_delay == 15 - n
            &&& !ppu.nmi_within(n, cart)
        }),
    decreases n,
{
    if n > 0 {
        lemma_counting_down(ppu, cart, (n - 1) as nat);
        let before = ppu.ticked_times((n - 1) as nat, cart);
        reveal(PpuModel::ticked);
        lemma_rendered_keeps(before.with_core(before.core.countdown()), cart);
    }
}

/// A frame has 262 scanlines of 341 dots. An odd frame that is rendered is one dot
/// shorter.
pub open spec fn frame_dots(core: CoreModel) -> nat {
    if core.rendering() && core.odd_frame {
        89341
    } else {
        89342
    }
}

/// From its first dot on, a frame takes exactly its dots.
pub proof fn frame_takes_its_dots(ppu: PpuModel, cart: CartModel)
    requires
        ppu.core.wf(),
        ppu.core.scanline == 0,
        ppu.core.dot == 0,
    ensures
        ({
            let next = ppu.ticked_times(frame_dots(ppu.core), cart).core;
            &&& next.scanline == 0
            &&& next.dot == 0
            &&& next.frame_count == ppu.core.frame_count + 1
            &&& next.odd_frame != ppu.core.odd_frame
        }),
{
    let n = (frame_dots(ppu.core) - 1) as nat;
    lemma_inside_frame(ppu, cart, n);
    let last = ppu.ticked_times(n, cart);
    lemma_tick_keeps(last, cart);
    assert(ppu.ticked_times(frame_dots(ppu.core), cart) == last.ticked(cart));
}

/// Dot `n` of a frame.
proof fn lemma_inside_frame(ppu: PpuModel, cart: CartModel, n: nat)
    requires
        ppu.core.wf(),
        ppu.core.scanline == 0,
        ppu.core.dot == 0,
        n < frame_dots(ppu.core),
    ensures
        ({
            let c = ppu.ticked_times(n, cart).core;
            &&& c.wf()
            &&& c.mask == ppu.core.mask
            &&& c.odd_frame == ppu.core.odd_frame
            &&& c.frame_count == ppu.core.frame_count
            &&& c.scanline * 341 + c.dot == n
        }),
    decreases n,
{
    if n > 0 {
        lemma_inside_frame(ppu, cart, (n - 1) as nat);
        lemma_tick_keeps(ppu.ticked_times((n - 1) as nat, cart), cart);
    }
}

/// A whole scanline and a scanline without pixels take the same time and raise the same
/// flags and interrupts; they differ in the picture, the scroll position and the sprite
/// flags only.
pub proof fn drawing_does_not_change_timing(ppu: ScanModel, cart: CartModel)
    requires
        ppu.core.wf(),
    ensures
        ({
            let full = ppu.scanline_finished(cart).core;
            let minimal = ppu.core.minimally_finished();
            &&& full.at_same_dot(minimal)
            &&& full.odd_frame == minimal.odd_frame
            &&& full.nmi_occurred == minimal.nmi_occurred
            &&& full.nmi_line == minimal.nmi_line
            &&& full.nmi_delay == minimal.nmi_delay
            &&& bits::bit8(full.status, 7) == bits::bit8(minimal.status, 7)
            &&& full.position() == ppu.core.position() + 341 - ppu.core.dot
        }),
{
    reveal(ScanModel::line_drawn);
    reveal(ScanModel::pre_rendered);
    let s = ppu.with_core(ppu.core.nmi_settled());
    lemma_tiles_keep(s, 32, cart);
    lemma_status_bits(s.tiles_drawn(32, cart).core.status);
}

/// The parts of the state that drawing does not touch.
pub open spec fn keeps_timing(a: CoreModel, b: CoreModel) -> bool {
    &&& a.at_same_dot(b)
    &&& a.odd_frame == b.odd_frame
    &&& a.nmi_occurred == b.nmi_occurred
    &&& a.nmi_output == b.nmi_output
    &&& a.nmi_line == b.nmi_line
    &&& a.nmi_delay == b.nmi_delay
    &&& bits::bit8(a.status, 7) == bits::bit8(b.status, 7)
}

proof fn lemma_status_bits(status: u8)
    ensures
        bits::bit8(bits::with_bit(status, 5), 7) == bits::bit8(status, 7),
        bits::bit8(bits::with_bit(status, 6), 7) == bits::bit8(status, 7),
{
    bits::lemma_set_bits(status);
    bits::lemma_bit8(status);
    bits::lemma_bit8(status | 0x20);
    bits::lemma_bit8(status | 0x40);
    assert((status | 0x20) & 0x80 == status & 0x80 && (status | 0x40) & 0x80 == status & 0x80)
        by (bit_vector);
}

proof fn lemma_columns_keep(s: ScanModel, px: int, n: int)
    ensures
        keeps_timing(s.columns_drawn(px, n).core, s.core),
    decreases n,
{
    if n > 0 {
        lemma_columns_keep(s, px, n - 1);
        lemma_status_bits(s.columns_drawn(px, n - 1).core.status);
    }
}

proof fn lemma_tiles_keep(s: ScanModel, n: int, cart: CartModel)
    ensures
        keeps_timing(s.tiles_drawn(n, cart).core, s.core),
    decreases n,
{
    if n > 0 {
        lemma_tiles_keep(s, n - 1, cart);
        let before = s.tiles_drawn(n - 1, cart);
        lemma_columns_keep(before.with_core(before.core.whole_tile_fetched(cart)), 8 * (n - 1), 8);
    }
}

/// Both picture processors show the same colours: with the same registers and sprites
/// evaluated from the same memory, every column of a scanline has the same colour.
pub proof fn processors_agree(a: PpuModel, b: ScanModel, px: int)
    requires
        a.core == b.core,
        b.line == line_buffer::line_of(sprite::sprites_of(a.core.oam), a.sprites),
        0 <= px < 256,
    ensures
        a.sprite_pixel(px) == b.sprite_pixel(px),
        a.pixel_color(px) == b.pixel_color(px),
{
}

/// Both evaluate the same sprites, and both raise the overflow flag alike.
pub proof fn evaluations_agree(a: PpuModel, b: ScanModel, cart: CartModel)
    requires
        a.core == b.core,
    ensures
        a.sprites_evaluated(cart).core == b.sprites_evaluated(cart).core,
        b.sprites_evaluated(cart).line == line_buffer::line_of(
            sprite::sprites_of(a.core.oam),
            a.sprites_evaluated(cart).sprites,
        ),
{
}

/// At most eight sprites are shown on a scanline, in the order of sprite memory.
pub proof fn eight_sprites_at_most(core: CoreModel, cart: CartModel)
    ensures
        core.line_sprites(cart).len() <= 8,
        forall|s: int, t: int|
            0 <= s < t < core.line_sprites(cart).len() ==> core.line_sprites(cart)[s].index
                < core.line_sprites(cart)[t].index,
{
    let list = sprite::sprites_of(core.oam);
    lemma_hits_ascend(list, core.scanline, core.tall(), 64);
    let found = sprite_unit::hits(list, core.scanline, core.tall(), 64);
    assert forall|s: int, t: int| 0 <= s < t < core.line_sprites(cart).len() implies core.line_sprites(
        cart,
    )[s].index < core.line_sprites(cart)[t].index by {
        assert(found[s] < found[t]);
        assert(0 <= found[s] && found[t] < 64);
    }
}

proof fn lemma_hits_ascend(list: Seq<sprite::Sprite>, scanline: int, tall: bool, n: int)
    requires
        0 <= n,
    ensures
        ({
            let found = sprite_unit::hits(list, scanline, tall, n);
            &&& forall|s: int| 0 <= s < found.len() ==> 0 <= #[trigger] found[s] < n
            &&& forall|s: int, t: int|
                0 <= s < t < found.len() ==> #[trigger] found[s] < #[trigger] found[t]
        }),
    decreases n,
{
    if n > 0 {
        lemma_hits_ascend(list, scanline, tall, n - 1);
        let before = sprite_unit::hits(list, scanline, tall, n - 1);
        let found = sprite_unit::hits(list, scanline, tall, n);
        if sprite_unit::crosses(list[n - 1], scanline, tall) {
            assert(found == before.push(n - 1));
            assert forall|s: int, t: int| 0 <= s < t < found.len() implies #[trigger] found[s]
                < #[trigger] found[t] by {
                assert(found[s] == before[s]);
                if t < before.len() {
                    assert(found[t] == before[t]);
                }
            }
            assert forall|s: int| 0 <= s < found.len() implies 0 <= #[trigger] found[s] < n by {
                if s < before.len() {
                    assert(found[s] == before[s]);
                }
            }
        }
    }
}

} // verus!

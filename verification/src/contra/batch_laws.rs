//! Drawing a scanline at once against drawing it dot by dot.

use vstd::prelude::*;
use crate::bits;
use crate::cartridge::CartModel;
use crate::contra::ppu::ScanModel;
use crate::contra::sprite;
use crate::line_buffer;
use crate::ppu::PpuModel;
use crate::ppu_core;
use crate::ppu_core::CoreModel;
use crate::ppu_laws;

verus! {

/// Memory, scroll settings and sprite memory are the same, and so is every flag but the
/// one for the first sprite.
pub open spec fn same_scene(a: CoreModel, b: CoreModel) -> bool {
    &&& a.nt_ram == b.nt_ram
    &&& a.palette == b.palette
    &&& a.oam == b.oam
    &&& a.ctrl == b.ctrl
    &&& a.mask == b.mask
    &&& a.t == b.t
    &&& a.x == b.x
    &&& a.w == b.w
    &&& a.odd_frame == b.odd_frame
    &&& bits::bit8(a.status, 5) == bits::bit8(b.status, 5)
    &&& bits::bit8(a.status, 7) == bits::bit8(b.status, 7)
}

/// What setting one flag does to the others.
proof fn lemma_flags(status: u8)
    ensures
        bits::bit8(bits::with_bit(status, 5), 5),
        bits::bit8(bits::with_bit(status, 6), 5) == bits::bit8(status, 5),
        bits::bit8(bits::with_bit(status, 5), 7) == bits::bit8(status, 7),
        bits::bit8(bits::with_bit(status, 6), 7) == bits::bit8(status, 7),
{
    bits::lemma_set_bits(status);
    bits::lemma_bit8(status);
    bits::lemma_bit8(status | 0x20);
    bits::lemma_bit8(status | 0x40);
    assert({
        &&& (status | 0x20) & 0x20 != 0
        &&& (status | 0x40) & 0x20 == status & 0x20
        &&& (status | 0x20) & 0x80 == status & 0x80
        &&& (status | 0x40) & 0x80 == status & 0x80
    }) by (bit_vector);
}

/// The video address after one dot of a visible scanline.
pub open spec fn address_after_dot(v: u16, t: u16, dot: int) -> u16 {
    if dot == 256 {
        ppu_core::next_y(v)
    } else if dot == 257 {
        ppu_core::copied_x(v, t)
    } else if (1 <= dot <= 256 || 321 <= dot <= 336) && dot % 8 == 7 {
        ppu_core::next_x(v)
    } else {
        v
    }
}

/// The video address after the first `n` dots of a visible scanline.
pub open spec fn address_after(v: u16, t: u16, n: nat) -> u16
    decreases n,
{
    if n == 0 {
        v
    } else {
        address_after_dot(address_after(v, t, (n - 1) as nat), t, n - 1)
    }
}

/// What a dot of a visible scanline does besides drawing.
proof fn lemma_dot(p: PpuModel, cart: CartModel)
    requires
        p.core.wf(),
        p.core.visible(),
        p.core.rendering(),
    ensures
        ({
            let next = p.ticked(cart);
            &&& next.core.wf()
            &&& next.core.at_same_dot(p.core.advanced())
            &&& next.core.v == address_after_dot(p.core.v, p.core.t, p.core.dot)
            &&& p.core.dot != 257 ==> same_scene(next.core, p.core) && next.sprites == p.sprites
            &&& p.core.dot == 257 ==> {
                &&& same_scene(next.core, p.core.overflow_noted())
                &&& next.sprites == p.core.line_sprites(cart)
            }
        }),
{
    reveal(PpuModel::ticked);
    let counted = p.with_core(p.core.countdown());
    lemma_flags(counted.core.status);
    lemma_background(counted.core, cart);
    lemma_background(counted.pixel_drawn().core, cart);
    lemma_flags(counted.pixel_drawn().core.background_cycle(cart).status);
    lemma_flags(counted.core.background_cycle(cart).status);
}

/// What a dot of a visible scanline does to the background pipeline.
proof fn lemma_background(core: CoreModel, cart: CartModel)
    requires
        core.wf(),
        core.visible(),
    ensures
        ({
            let next = core.background_cycle(cart);
            &&& next.wf()
            &&& next.at_same_dot(core)
            &&& next.v == address_after_dot(core.v, core.t, core.dot)
            &&& next.status == core.status
            &&& same_scene(next, core)
        }),
{
}

/// The first `n` dots of a visible scanline.
proof fn lemma_dots(p: PpuModel, cart: CartModel, n: nat)
    requires
        p.core.wf(),
        p.core.visible(),
        p.core.rendering(),
        p.core.dot == 0,
        n <= 341,
    ensures
        ({
            let q = p.ticked_times(n, cart);
            &&& q.core.wf()
            &&& n < 341 ==> q.core.scanline == p.core.scanline && q.core.dot == n
            &&& n == 341 ==> q.core.scanline == p.core.scanline + 1 && q.core.dot == 0
            &&& q.core.frame_count == p.core.frame_count
            &&& q.core.v == address_after(p.core.v, p.core.t, n)
            &&& n <= 257 ==> same_scene(q.core, p.core)
            &&& n > 257 ==> {
                &&& same_scene(q.core, p.core.overflow_noted())
                &&& q.sprites == p.core.line_sprites(cart)
            }
        }),
    decreases n,
{
    if n > 0 {
        lemma_dots(p, cart, (n - 1) as nat);
        let before = p.ticked_times((n - 1) as nat, cart);
        lemma_dot(before, cart);
        lemma_flags(before.core.status);
        lemma_flags(p.core.status);
    }
}

/// The address while the tiles of a scanline are fetched.
proof fn lemma_across(v: u16, t: u16, n: nat)
    requires
        n <= 256,
    ensures
        address_after(v, t, n) == ppu_laws::steps_right(v, n / 8),
    decreases n,
{
    if n > 0 {
        lemma_across(v, t, (n - 1) as nat);
    }
}

/// The address in the second half of a scanline.
proof fn lemma_ahead(v: u16, t: u16, n: nat)
    requires
        258 <= n <= 341,
    ensures
        ({
            let row = ppu_core::copied_x(
                ppu_core::next_y(ppu_laws::steps_right(v, 32)),
                t,
            );
            address_after(v, t, n) == ppu_laws::steps_right(
                row,
                if n > 335 {
                    2
                } else if n > 327 {
                    1
                } else {
                    0
                },
            )
        }),
    decreases n,
{
    let row = ppu_core::copied_x(ppu_core::next_y(ppu_laws::steps_right(v, 32)), t);
    assert(ppu_laws::steps_right(row, 0) == row);
    assert(ppu_laws::steps_right(row, 1) == ppu_core::next_x(row));
    assert(ppu_laws::steps_right(row, 2) == ppu_core::next_x(ppu_laws::steps_right(row, 1)));
    if n == 258 {
        lemma_across(v, t, 256);
        assert(address_after(v, t, 257) == address_after_dot(address_after(v, t, 256), t, 256));
        assert(address_after(v, t, 258) == address_after_dot(address_after(v, t, 257), t, 257));
    } else {
        lemma_ahead(v, t, (n - 1) as nat);
    }
}

/// Drawing columns moves nothing but the shift registers.
proof fn lemma_columns(s: ScanModel, px: int, n: int)
    ensures
        ({
            let d = s.columns_drawn(px, n);
            &&& d.core.v == s.core.v
            &&& d.core.at_same_dot(s.core)
            &&& same_scene(d.core, s.core)
        }),
    decreases n,
{
    if n > 0 {
        lemma_columns(s, px, n - 1);
        lemma_flags(s.columns_drawn(px, n - 1).core.status);
    }
}

/// Drawing tiles moves the address across.
proof fn lemma_tiles(s: ScanModel, n: nat, cart: CartModel)
    ensures
        ({
            let d = s.tiles_drawn(n as int, cart);
            &&& d.core.v == ppu_laws::steps_right(s.core.v, n)
            &&& d.core.at_same_dot(s.core)
            &&& same_scene(d.core, s.core)
        }),
    decreases n,
{
    if n > 0 {
        lemma_tiles(s, (n - 1) as nat, cart);
        let before = s.tiles_drawn(n - 1, cart);
        lemma_columns(before.with_core(before.core.whole_tile_fetched(cart)), 8 * (n - 1), 8);
    }
}

/// A visible scanline drawn at once leaves everything but the pixels, the shift registers,
/// the first sprite's flag and the interrupt delay as its 341 dots do: the scroll position,
/// memory, the other flags, the sprites of the next scanline, and the time.
pub proof fn lines_leave_what_dots_leave(dotted: PpuModel, batched: ScanModel, cart: CartModel)
    requires
        dotted.core.wf(),
        dotted.core == batched.core,
        dotted.core.visible(),
        dotted.core.rendering(),
        dotted.core.dot == 0,
    ensures
        ({
            let a = dotted.ticked_times(341, cart);
            let b = batched.scanline_finished(cart);
            &&& a.core.v == b.core.v
            &&& a.core.at_same_dot(b.core)
            &&& same_scene(a.core, b.core)
            &&& b.line == line_buffer::line_of(sprite::sprites_of(a.core.oam), a.sprites)
        }),
{
    lemma_dots(dotted, cart, 341);
    lemma_ahead(dotted.core.v, dotted.core.t, 341);
    reveal(ScanModel::line_drawn);
    let s = batched.with_core(batched.core.nmi_settled());
    lemma_tiles(s, 32, cart);
    let tiles = s.tiles_drawn(32, cart);
    let row = tiles.row_advanced();
    let e = row.sprites_evaluated(cart);
    lemma_flags(row.core.status);
    lemma_flags(dotted.core.status);
    assert(row.core.oam == dotted.core.oam);
    assert(row.core.line_sprites(cart) == dotted.core.line_sprites(cart));
    assert(row.core.sprites_hit() == dotted.core.sprites_hit());
    let one = e.core.tile_prefetched(cart);
    let two = one.tile_prefetched(cart);
    assert(one.v == ppu_core::next_x(e.core.v));
    assert(two.v == ppu_core::next_x(one.v));
    assert(ppu_laws::steps_right(e.core.v, 0) == e.core.v);
    assert(ppu_laws::steps_right(e.core.v, 1) == one.v);
    assert(ppu_laws::steps_right(e.core.v, 2) == two.v);
    assert(same_scene(two, e.core));
}

/// While nothing is shown, a scanline and a scanline without pixels end in the same state.
pub proof fn blank_lines_agree(ppu: ScanModel, cart: CartModel)
    requires
        ppu.core.wf(),
        !ppu.core.rendering(),
    ensures
        ppu.scanline_finished(cart) == ppu.with_core(ppu.core.minimally_finished()),
{
    reveal(ScanModel::pre_rendered);
}

/// A scanline without pixels leaves memory, registers, scroll position and pipeline alone;
/// only the status, the interrupt signal and the time change.
pub proof fn bare_lines_only_count(core: CoreModel)
    ensures
        ({
            let after = core.minimally_finished();
            after == (CoreModel {
                status: after.status,
                scanline: after.scanline,
                dot: after.dot,
                frame_count: after.frame_count,
                odd_frame: after.odd_frame,
                nmi_occurred: after.nmi_occurred,
                nmi_line: after.nmi_line,
                nmi_delay: after.nmi_delay,
                ..core
            })
        }),
{
}

} // verus!

//! Draws scanlines straight from the tile map and the line buffer.

use vstd::prelude::*;
use crate::bits;
use crate::cartridge::{CartModel, Cartridge};
use crate::contra::sprite;
use crate::contra::sprite::{Sprite, SpriteList};
use crate::contra::tile_map;
use crate::contra::tile_map::TileMap;
use crate::line_buffer;
use crate::line_buffer::LineBuffer;
use crate::palette;
use crate::ppu_core;
use crate::sprite_unit;
use crate::sprite_unit::{find_sprites, LineSprites, SpritePixel, SpriteUnit};

verus! {

pub struct Renderer {
    /// `0x00RRGGBB` of each palette entry.
    pub pal_cache: [u32; 32],
    pub sp_line: LineBuffer,
}

/// What a scanline is drawn from: the tile map, the patterns, the line buffer and the
/// picture registers.
pub ghost struct Scene {
    pub map: Seq<u8>,
    pub cart: CartModel,
    pub line: Seq<SpritePixel>,
    /// Video address of the first tile.
    pub v: u16,
    pub fine_x: int,
    pub ctrl: u8,
    pub mask: u8,
}

impl Scene {
    /// Pixels from the left edge of the first nametable to column `px`.
    pub open spec fn across(self, px: int) -> int {
        ppu_core::coarse_x(self.v) * 8 + self.fine_x + px
    }

    /// The background's colour and palette in column `px`, whether shown or not.
    pub open spec fn tile_pixel(self, px: int) -> (int, int) {
        let row = row_at(self.map, self.cart, self.v, self.ctrl, self.across(px));
        let bit = 7 - self.across(px) % 8;
        (
            (if bits::bit8(row.lo, bit) {
                1int
            } else {
                0
            }) + (if bits::bit8(row.hi, bit) {
                2int
            } else {
                0
            }),
            row.palette as int,
        )
    }

    /// The background's contribution to column `px`.
    pub open spec fn background(self, px: int) -> (int, int) {
        if bits::bit8(self.mask, 3) && (px >= 8 || bits::bit8(self.mask, 1)) {
            self.tile_pixel(px)
        } else {
            (0, 0)
        }
    }

    /// The sprites' contribution to column `px`.
    pub open spec fn sprite(self, px: int) -> SpritePixel {
        if bits::bit8(self.mask, 4) && (px >= 8 || bits::bit8(self.mask, 2)) {
            self.line[px]
        } else {
            sprite_unit::no_sprite()
        }
    }

    /// The palette slot of column `px`.
    pub open spec fn slot(self, px: int) -> int {
        ppu_core::mixed(self.background(px), self.sprite(px))
    }

    /// The first sprite overlaps the background in column `px`.
    pub open spec fn hit_at(self, px: int) -> bool {
        ppu_core::zero_hit(self.background(px), self.sprite(px), px)
    }
}

/// How far into the first tile a scanline starts.
pub open spec fn skipped(fine_x: u8) -> int {
    if fine_x < 8 {
        fine_x as int
    } else {
        8
    }
}

impl Renderer {
    pub open spec fn wf(&self) -> bool {
        self.sp_line.wf()
    }

    /// The scene that this renderer draws from the given parts.
    pub open spec fn scene(
        &self,
        map: Seq<u8>,
        cart: CartModel,
        v: u16,
        fine_x: u8,
        ctrl: u8,
        mask: u8,
    ) -> Scene {
        Scene { map, cart, line: self.sp_line@, v, fine_x: skipped(fine_x), ctrl, mask }
    }

    /// The line buffer holds what the first eight sprites that the scanline crosses
    /// contribute to each column, and nothing else.
    pub open spec fn holds_line(
        &self,
        sprites: Seq<Sprite>,
        scanline: int,
        tall: bool,
        base: int,
        cart: CartModel,
    ) -> bool {
        let units = sprite_unit::line_sprites(sprites, scanline, tall, base, cart);
        &&& self.sp_line@ == line_buffer::line_of(sprites, units)
        &&& self.sp_line.used == (units.len() > 0)
    }

    pub fn new() -> (r: Renderer)
        ensures
            r.wf(),
            r.pal_cache@ == Seq::new(32, |i: int| 0u32),
            r.sp_line@ == line_buffer::empty_line(),
            !r.sp_line.used,
    {
        Renderer { pal_cache: [0;32], sp_line: LineBuffer::new() }
    }

    /// Looks up the colours of a palette.
    pub fn rebuild_pal_cache(&mut self, palette: &[u8; 32])
        ensures
            final(self).pal_cache@ == Seq::new(32, |i: int| palette::argb(palette@[i])),
            final(self).sp_line == old(self).sp_line,
    {
        let mut i: usize = 0;
        while i < 32
            invariant
                i <= 32,
                self.sp_line == old(self).sp_line,
                forall|j: int|
                    0 <= j < i ==> #[trigger] self.pal_cache@[j] == palette::argb(palette@[j]),
            decreases 32 - i,
        {
            let c: (u8, u8, u8) = palette::color_rgb(palette[i]);
            self.pal_cache[i] = palette::pack(c.0, c.1, c.2);
            i = i + 1;
        }
    }

    /// Chooses the sprites of a scanline and resolves them into the line buffer.
    /// 8x8 sprites take their patterns from the table at `sprite_base`.
    pub fn evaluate_sprites(
        &mut self,
        sprites: &SpriteList,
        scanline: i32,
        tall_sprites: bool,
        sprite_base: u16,
        ctrl: u8,
        cart: &Cartridge,
    )
        requires
            old(self).wf(),
            sprite::valid_sprites(sprites@),
            sprite_unit::addresses_fit(
                sprites@,
                scanline as int,
                tall_sprites,
                sprite_base as int,
            ),
        ensures
            final(self).wf(),
            final(self).pal_cache == old(self).pal_cache,
            final(self).holds_line(
                sprites@,
                scanline as int,
                tall_sprites,
                sprite_base as int,
                cart@,
            ),
    {
        let found: LineSprites = find_sprites(sprites, scanline, tall_sprites, sprite_base, cart);
        self.sp_line.fill(&found, sprites);
    }

    /// Draws one scanline of the framebuffer. Returns whether the first sprite hits the
    /// background.
    pub fn render_scanline(
        &mut self,
        tile_map: &TileMap,
        cart: &Cartridge,
        framebuffer: &mut [u32],
        scanline: usize,
        v: u16,
        fine_x: u8,
        ctrl: u8,
        mask: u8,
    ) -> (hit: bool)
        requires
            old(self).wf(),
            scanline * 256 + 256 <= old(framebuffer)@.len(),
            fine_x <= 8 || (old(self).sp_line.used && bits::bit8(mask, 4)),
        ensures
            *final(self) == *old(self),
            final(framebuffer)@.len() == old(framebuffer)@.len(),
            ({
                let scene = old(self).scene(tile_map@, cart@, v, fine_x, ctrl, mask);
                &&& forall|px: int|
                    0 <= px < 256 ==> #[trigger] final(framebuffer)@[scanline * 256 + px]
                        == old(self).pal_cache@[scene.slot(px)]
                &&& hit == (exists|px: int| 0 <= px < 256 && #[trigger] scene.hit_at(px))
            }),
            forall|i: int|
                0 <= i < old(framebuffer)@.len() && !(scanline * 256 <= i < scanline * 256 + 256)
                    ==> #[trigger] final(framebuffer)@[i] == old(framebuffer)@[i],
    {
        proof {
            bits::lemma_bit8(mask);
        }
        let sprites: bool = self.sp_line.used && mask & 0x10 != 0;
        let skip: usize = if fine_x < 8 {
            fine_x as usize
        } else {
            8
        };
        let start: usize = (v % 32) as usize * 8 + skip;
        let ghost scene = self.scene(tile_map@, cart@, v, fine_x, ctrl, mask);
        assert(scanline * 256 + 256 <= framebuffer.len());
        let row: usize = scanline * 256;
        let mut hit: bool = false;
        let mut px: usize = 0;
        while px < 256
            invariant
                px <= 256,
                self.wf(),
                *self == *old(self),
                scene == self.scene(tile_map@, cart@, v, fine_x, ctrl, mask),
                sprites == (self.sp_line.used && bits::bit8(mask, 4)),
                start == scene.across(0),
                start <= 256,
                row == scanline * 256,
                row + 256 <= framebuffer@.len(),
                framebuffer@.len() == old(framebuffer)@.len(),
                forall|p: int|
                    0 <= p < px ==> #[trigger] framebuffer@[row + p] == self.pal_cache@[scene.slot(
                        p,
                    )],
                hit == (exists|p: int| 0 <= p < px && #[trigger] scene.hit_at(p)),
                forall|i: int|
                    0 <= i < framebuffer@.len() && !(row <= i < row + 256)
                        ==> #[trigger] framebuffer@[i] == old(framebuffer)@[i],
            decreases 256 - px,
        {
            let first: usize = px;
            let cell: TileRow = fetch_row(tile_map, cart, v, ctrl, start + px);
            let left: usize = 8 - (start + px) % 8;
            while px < 256 && px < first + left
                invariant
                    first <= px <= 256,
                    px <= first + left,
                    first < 256,
                    left == 8 - (start + first) % 8,
                    cell == row_at(tile_map@, cart@, v, ctrl, start + first),
                    cell.palette < 4,
                    self.wf(),
                    *self == *old(self),
                    scene == self.scene(tile_map@, cart@, v, fine_x, ctrl, mask),
                    sprites == (self.sp_line.used && bits::bit8(mask, 4)),
                    start == scene.across(0),
                    start <= 256,
                    row == scanline * 256,
                    row + 256 <= framebuffer@.len(),
                    framebuffer@.len() == old(framebuffer)@.len(),
                    forall|p: int|
                        0 <= p < px ==> #[trigger] framebuffer@[row + p]
                            == self.pal_cache@[scene.slot(p)],
                    hit == (exists|p: int| 0 <= p < px && #[trigger] scene.hit_at(p)),
                    forall|i: int|
                        0 <= i < framebuffer@.len() && !(row <= i < row + 256)
                            ==> #[trigger] framebuffer@[i] == old(framebuffer)@[i],
                decreases first + left - px,
            {
                proof {
                    lemma_same_cell(scene, first as int, px as int);
                }
                let bg: (u8, u8) = cell.pixel((start + px) % 8, px, mask);
                let sp: SpritePixel = self.sprite_pixel(px, sprites, mask);
                if bg.0 != 0 && sp.color != 0 && sp.zero && px < 255 {
                    hit = true;
                }
                assert(hit == (exists|p: int| 0 <= p < px + 1 && #[trigger] scene.hit_at(p))) by {
                    assert(scene.hit_at(px as int) == (bg.0 != 0 && sp.color != 0 && sp.zero && px
                        < 255));
                }
                let slot: usize = mix(bg, sp);
                framebuffer[row + px] = self.pal_cache[slot];
                px = px + 1;
            }
        }
        hit
    }

    /// The sprites' contribution to column `px`.
    fn sprite_pixel(&self, px: usize, sprites: bool, mask: u8) -> (sp: SpritePixel)
        requires
            self.wf(),
            px < 256,
            sprites == (self.sp_line.used && bits::bit8(mask, 4)),
        ensures
            sp == (if bits::bit8(mask, 4) && (px >= 8 || bits::bit8(mask, 2)) {
                self.sp_line@[px as int]
            } else {
                sprite_unit::no_sprite()
            }),
            sp.color < 4,
            sp.palette < 8,
    {
        proof {
            bits::lemma_bit8(mask);
        }
        if sprites && (px >= 8 || mask & 0x04 != 0) {
            self.sp_line.columns[px]
        } else {
            SpritePixel { color: 0, palette: 0, behind: false, zero: false }
        }
    }
}

/// One pixel row of a tile, with its palette.
#[derive(Clone, Copy)]
pub struct TileRow {
    pub lo: u8,
    pub hi: u8,
    pub palette: u8,
}

/// The tile row at a distance from the left edge of the first nametable. Past its right
/// edge comes the other nametable.
pub open spec fn row_at(map: Seq<u8>, cart: CartModel, v: u16, ctrl: u8, across: int) -> TileRow {
    let nametable = (ppu_core::nametable_x(v) + across / 256) % 2;
    let x = across / 8 % 32;
    let y = ppu_core::coarse_y(v);
    let tile = map[tile_map::tile_index(nametable, x, y)];
    let addr = (if bits::bit8(ctrl, 4) {
        0x1000int
    } else {
        0
    }) + tile * 16 + ppu_core::fine_y(v);
    TileRow {
        lo: cart.chr_at(addr),
        hi: cart.chr_at(addr + 8),
        palette: tile_map::cell_palette(
            map[tile_map::attribute_index(nametable, x, y)],
            x,
            y,
        ) as u8,
    }
}

/// Columns of one tile show the same tile row.
proof fn lemma_same_cell(scene: Scene, first: int, px: int)
    requires
        0 <= first <= px < first + 8 - scene.across(first) % 8,
        scene.across(0) >= 0,
    ensures
        scene.across(px) / 8 == scene.across(first) / 8,
        scene.across(px) / 256 == scene.across(first) / 256,
        row_at(scene.map, scene.cart, scene.v, scene.ctrl, scene.across(px)) == row_at(
            scene.map,
            scene.cart,
            scene.v,
            scene.ctrl,
            scene.across(first),
        ),
{
}

fn fetch_row(tile_map: &TileMap, cart: &Cartridge, v: u16, ctrl: u8, across: usize) -> (r: TileRow)
    requires
        across < 512,
    ensures
        r == row_at(tile_map@, cart@, v, ctrl, across as int),
        r.palette < 4,
{
    proof {
        bits::lemma_bit8(ctrl);
    }
    let nametable: usize = ((v / 1024 % 2) as usize + across / 256) % 2;
    let x: usize = across / 8 % 32;
    let y: usize = (v / 32 % 32) as usize;
    let tile: u8 = tile_map.get_tile(nametable, x, y);
    let base: u16 = if ctrl & 0x10 != 0 {
        0x1000
    } else {
        0
    };
    let addr: u16 = base + tile as u16 * 16 + v / 4096 % 8;
    TileRow {
        lo: cart.read_chr(addr),
        hi: cart.read_chr(addr + 8),
        palette: tile_map.get_palette(nametable, x, y),
    }
}

impl TileRow {
    /// The contribution of the row's pixel `sub` to column `px`.
    fn pixel(&self, sub: usize, px: usize, mask: u8) -> (bg: (u8, u8))
        requires
            sub < 8,
        ensures
            bits::bit8(mask, 3) && (px >= 8 || bits::bit8(mask, 1)) ==> {
                &&& bg.0 == (if bits::bit8(self.lo, 7 - sub) {
                    1int
                } else {
                    0
                }) + (if bits::bit8(self.hi, 7 - sub) {
                    2int
                } else {
                    0
                })
                &&& bg.1 == self.palette
            },
            !(bits::bit8(mask, 3) && (px >= 8 || bits::bit8(mask, 1))) ==> bg == (0u8, 0u8),
            bg.0 < 4,
            bg.1 <= self.palette,
    {
        proof {
            bits::lemma_bit8(mask);
        }
        if mask & 0x08 != 0 && (px >= 8 || mask & 0x02 != 0) {
            let bit: u8 = 7 - sub as u8;
            (bits::bit_at(self.lo, bit) + 2 * bits::bit_at(self.hi, bit), self.palette)
        } else {
            (0, 0)
        }
    }
}

/// The palette slot of a pixel.
fn mix(bg: (u8, u8), sp: SpritePixel) -> (slot: usize)
    requires
        bg.0 < 4,
        bg.1 < 4,
        sp.color < 4,
        sp.palette < 8,
    ensures
        slot == ppu_core::mixed((bg.0 as int, bg.1 as int), sp),
        slot < 32,
{
    if sp.color != 0 && (bg.0 == 0 || !sp.behind) {
        sp.palette as usize * 4 + sp.color as usize
    } else if bg.0 != 0 {
        bg.1 as usize * 4 + bg.0 as usize
    } else {
        0
    }
}

/// Nothing is left from earlier scanlines: two renderers that evaluate the same sprites hold
/// the same line, whatever they held before.
pub proof fn evaluation_forgets(
    a: Renderer,
    b: Renderer,
    sprites: Seq<Sprite>,
    scanline: int,
    tall: bool,
    base: int,
    cart: CartModel,
)
    requires
        a.holds_line(sprites, scanline, tall, base, cart),
        b.holds_line(sprites, scanline, tall, base, cart),
    ensures
        a.sp_line@ == b.sp_line@,
        a.sp_line.used == b.sp_line.used,
{
}

/// What an evaluated line shows: only the first eight sprites that the scanline crosses, in
/// the order of sprite memory; in each column the first of them that is opaque there, and
/// nothing where none is.
pub proof fn first_opaque_sprite_shows(
    sprites: Seq<Sprite>,
    scanline: int,
    tall: bool,
    base: int,
    cart: CartModel,
    px: int,
)
    requires
        0 <= px < 256,
    ensures
        ({
            let found = sprite_unit::hits(sprites, scanline, tall, 64);
            let units = sprite_unit::line_sprites(sprites, scanline, tall, base, cart);
            let line = line_buffer::line_of(sprites, units);
            &&& units.len() == (if found.len() < 8 {
                found.len()
            } else {
                8
            })
            &&& forall|s: int|
                0 <= s < units.len() ==> #[trigger] units[s] == sprite_unit::unit_of(
                    sprites,
                    found[s],
                    scanline,
                    tall,
                    base,
                    cart,
                )
            &&& forall|s: int|
                0 <= s < units.len() && (#[trigger] units[s]).color(px) != 0 && (forall|r: int|
                    0 <= r < s ==> (#[trigger] units[r]).color(px) == 0) ==> line[px]
                    == sprite_unit::pixel_of(sprites, units[s], px)
            &&& (forall|s: int| 0 <= s < units.len() ==> (#[trigger] units[s]).color(px) == 0)
                ==> line[px].color == 0
        }),
{
    let units = sprite_unit::line_sprites(sprites, scanline, tall, base, cart);
    assert forall|s: int|
        0 <= s < units.len() && (#[trigger] units[s]).color(px) != 0 && (forall|r: int|
            0 <= r < s ==> (#[trigger] units[r]).color(px) == 0) implies line_buffer::line_of(
        sprites,
        units,
    )[px] == sprite_unit::pixel_of(sprites, units[s], px) by {
        lemma_front_is(units, px, 0, s);
    }
    if forall|s: int| 0 <= s < units.len() ==> (#[trigger] units[s]).color(px) == 0 {
        lemma_no_front(units, px, 0);
    }
}

/// The first opaque sprite is the one in front.
proof fn lemma_front_is(units: Seq<SpriteUnit>, px: int, from: int, s: int)
    requires
        0 <= from <= s < units.len(),
        units[s].color(px) != 0,
        forall|r: int| from <= r < s ==> (#[trigger] units[r]).color(px) == 0,
    ensures
        sprite_unit::front_sprite(units, px, from) == Some(s),
    decreases s - from,
{
    if from < s {
        lemma_front_is(units, px, from + 1, s);
    }
}

/// Where no sprite is opaque, none is in front.
proof fn lemma_no_front(units: Seq<SpriteUnit>, px: int, from: int)
    requires
        0 <= from,
        forall|r: int| from <= r < units.len() ==> (#[trigger] units[r]).color(px) == 0,
    ensures
        sprite_unit::front_sprite(units, px, from) is None,
    decreases units.len() - from,
{
    if from < units.len() {
        lemma_no_front(units, px, from + 1);
    }
}

} // verus!

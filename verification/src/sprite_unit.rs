//! The sprites that a scanline shows.

use vstd::prelude::*;
use crate::bits;
use crate::cartridge::{CartModel, Cartridge};
use crate::contra::sprite;
use crate::contra::sprite::{Sprite, SpriteList};

verus! {

/// A sprite of the current scanline.
#[derive(Clone, Copy)]
pub struct SpriteUnit {
    /// Low bits of its eight pixels, leftmost in bit 7.
    pub lo: u8,
    /// High bits of its eight pixels.
    pub hi: u8,
    /// Column of the leftmost pixel.
    pub x: u8,
    /// It lies behind the background.
    pub behind: bool,
    /// Its number in sprite memory.
    pub index: u8,
}

/// What sprite evaluation finds.
pub struct LineSprites {
    /// The first `count` of these are in use.
    pub units: [SpriteUnit; 8],
    pub count: usize,
    /// There were more than eight.
    pub overflow: bool,
}

/// What the sprites contribute to a pixel. Colour 0 is transparent.
#[derive(Clone, Copy)]
pub struct SpritePixel {
    pub color: u8,
    pub palette: u8,
    /// The sprite lies behind the background.
    pub behind: bool,
    /// It is the first sprite.
    pub zero: bool,
}

/// No sprite.
pub open spec fn no_sprite() -> SpritePixel {
    SpritePixel { color: 0, palette: 0, behind: false, zero: false }
}

impl SpriteUnit {
    /// The sprite's colour in column `px`.
    pub open spec fn color(self, px: int) -> int {
        let off = px - self.x;
        if 0 <= off < 8 {
            (if bits::bit8(self.lo, 7 - off) {
                1int
            } else {
                0
            }) + (if bits::bit8(self.hi, 7 - off) {
                2int
            } else {
                0
            })
        } else {
            0
        }
    }

    pub fn color_at(&self, px: usize) -> (color: u8)
        requires
            px < 256,
        ensures
            color == self.color(px as int),
            color < 4,
    {
        let x: usize = self.x as usize;
        if x <= px && px < x + 8 {
            let bit: u8 = 7 - (px - x) as u8;
            bits::bit_at(self.lo, bit) + 2 * bits::bit_at(self.hi, bit)
        } else {
            0
        }
    }
}

/// Rows of a sprite.
pub open spec fn height(tall: bool) -> int {
    if tall {
        16
    } else {
        8
    }
}

/// The scanline crosses the sprite.
pub open spec fn crosses(sp: Sprite, scanline: int, tall: bool) -> bool {
    0 <= scanline - sp.y < height(tall)
}

/// The sprites below `n` that the scanline crosses, in priority order.
pub open spec fn hits(list: Seq<Sprite>, scanline: int, tall: bool, n: int) -> Seq<int>
    decreases n,
{
    if n <= 0 {
        Seq::empty()
    } else if crosses(list[n - 1], scanline, tall) {
        hits(list, scanline, tall, n - 1).push(n - 1)
    } else {
        hits(list, scanline, tall, n - 1)
    }
}

/// The row of the sprite that the scanline shows; a vertical flip turns it over.
pub open spec fn row_of(sp: Sprite, scanline: int, tall: bool) -> int {
    if sp.flip_v {
        height(tall) - 1 - (scanline - sp.y)
    } else {
        scanline - sp.y
    }
}

/// The pattern row of a sprite: tall sprites take their pattern table from bit 0 of
/// the tile number and span two tiles, others use the table at `base`.
pub open spec fn pattern_address(sp: Sprite, scanline: int, tall: bool, base: int) -> int {
    let row = row_of(sp, scanline, tall);
    if tall {
        sp.tile % 2 * 0x1000 + (sp.tile / 2 * 2 + row / 8) * 16 + row % 8
    } else {
        base + sp.tile * 16 + row
    }
}

/// Sprite `i` as the scanline shows it. A horizontal flip reverses the pixel order.
pub open spec fn unit_of(
    list: Seq<Sprite>,
    i: int,
    scanline: int,
    tall: bool,
    base: int,
    cart: CartModel,
) -> SpriteUnit {
    let sp = list[i];
    let addr = pattern_address(sp, scanline, tall, base);
    let lo = cart.chr_at(addr);
    let hi = cart.chr_at(addr + 8);
    SpriteUnit {
        lo: if sp.flip_h {
            bits::reversed(lo)
        } else {
            lo
        },
        hi: if sp.flip_h {
            bits::reversed(hi)
        } else {
            hi
        },
        x: sp.x,
        behind: sp.behind_bg,
        index: i as u8,
    }
}

/// The first eight of the sprites that the scanline crosses.
pub open spec fn line_sprites(
    list: Seq<Sprite>,
    scanline: int,
    tall: bool,
    base: int,
    cart: CartModel,
) -> Seq<SpriteUnit> {
    let found = hits(list, scanline, tall, 64);
    let count = if found.len() < 8 {
        found.len()
    } else {
        8
    };
    Seq::new(count, |s: int| unit_of(list, found[s], scanline, tall, base, cart))
}

/// The first of the sprites from `from` on that is opaque in column `px`.
pub open spec fn front_sprite(sprites: Seq<SpriteUnit>, px: int, from: int) -> Option<int>
    decreases sprites.len() - from,
{
    if from >= sprites.len() {
        None
    } else if sprites[from].color(px) != 0 {
        Some(from)
    } else {
        front_sprite(sprites, px, from + 1)
    }
}

/// A sprite's pixel in column `px`, with the palette that the list gives it.
pub open spec fn pixel_of(list: Seq<Sprite>, unit: SpriteUnit, px: int) -> SpritePixel {
    SpritePixel {
        color: unit.color(px) as u8,
        palette: (list[unit.index as int].palette + 4) as u8,
        behind: unit.behind,
        zero: unit.index == 0,
    }
}

/// The topmost opaque sprite pixel in column `px`.
pub open spec fn opaque_sprite(
    list: Seq<Sprite>,
    units: Seq<SpriteUnit>,
    px: int,
) -> SpritePixel {
    match front_sprite(units, px, 0) {
        Some(s) => pixel_of(list, units[s], px),
        None => no_sprite(),
    }
}

/// Rows and pattern addresses can be computed: the distances to all sprites fit in an `i32`,
/// and the pattern addresses of the sprites shown in a `u16`.
pub open spec fn addresses_fit(list: Seq<Sprite>, scanline: int, tall: bool, base: int) -> bool {
    let found = hits(list, scanline, tall, 64);
    &&& forall|i: int| 0 <= i < 64 ==> scanline - (#[trigger] list[i]).y >= i32::MIN
    &&& forall|s: int|
        0 <= s < found.len() && s < 8 ==> pattern_address(
            list[#[trigger] found[s]],
            scanline,
            tall,
            base,
        ) + 8 <= 0xFFFF
}

/// Inside the screen, with a pattern table below $F000, addresses always fit.
pub proof fn lemma_addresses_fit(list: Seq<Sprite>, scanline: int, tall: bool, base: int)
    requires
        scanline >= 0,
        base <= 0xF000,
    ensures
        addresses_fit(list, scanline, tall, base),
{
    let found = hits(list, scanline, tall, 64);
    assert forall|s: int| 0 <= s < found.len() && s < 8 implies pattern_address(
        list[#[trigger] found[s]],
        scanline,
        tall,
        base,
    ) + 8 <= 0xFFFF by {
        lemma_hits_cross(list, scanline, tall, 64, s);
    }
}

/// The sprites found cross the scanline.
proof fn lemma_hits_cross(list: Seq<Sprite>, scanline: int, tall: bool, n: int, s: int)
    requires
        0 <= s < hits(list, scanline, tall, n).len(),
    ensures
        crosses(list[hits(list, scanline, tall, n)[s]], scanline, tall),
    decreases n,
{
    if n > 0 && s < hits(list, scanline, tall, n - 1).len() {
        lemma_hits_cross(list, scanline, tall, n - 1, s);
    }
}

/// Sprites already found stay found, in the same order.
proof fn lemma_hits_grow(list: Seq<Sprite>, scanline: int, tall: bool, n: int, m: int)
    requires
        0 <= n <= m,
    ensures
        ({
            let fewer = hits(list, scanline, tall, n);
            let all = hits(list, scanline, tall, m);
            fewer.len() <= all.len() && fewer == all.take(fewer.len() as int)
        }),
    decreases m - n,
{
    if n < m {
        lemma_hits_grow(list, scanline, tall, n, m - 1);
    }
}

/// A sprite of lower priority shows only where no other is opaque.
pub proof fn lemma_front_push(sprites: Seq<SpriteUnit>, unit: SpriteUnit, px: int, from: int)
    requires
        0 <= from <= sprites.len(),
    ensures
        front_sprite(sprites.push(unit), px, from) == (match front_sprite(sprites, px, from) {
            Some(s) => Some(s),
            None => if unit.color(px) != 0 {
                Some(sprites.len() as int)
            } else {
                None
            },
        }),
        front_sprite(sprites, px, from) matches Some(s) ==> from <= s < sprites.len(),
    decreases sprites.len() - from,
{
    if from < sprites.len() {
        lemma_front_push(sprites, unit, px, from + 1);
    } else {
        assert(front_sprite(sprites.push(unit), px, from + 1) is None);
    }
}

/// The topmost sprite is opaque.
pub proof fn lemma_front_opaque(sprites: Seq<SpriteUnit>, px: int, from: int)
    requires
        0 <= from,
    ensures
        front_sprite(sprites, px, from) matches Some(s) ==> sprites[s].color(px) != 0,
    decreases sprites.len() - from,
{
    if from < sprites.len() {
        lemma_front_opaque(sprites, px, from + 1);
    }
}

/// Pattern address of a row of an 8x16 sprite.
fn tall_sprite_address(tile: u8, row: u16) -> (addr: u16)
    requires
        row < 16,
    ensures
        addr == tile % 2 * 0x1000 + (tile / 2 * 2 + row / 8) * 16 + row % 8,
        addr < 0x1FF8,
{
    (tile % 2) as u16 * 0x1000 + ((tile / 2 * 2) as u16 + row / 8) * 16 + row % 8
}

/// Pattern address of a row of an 8x8 sprite.
fn sprite_address(base: u16, tile: u8, row: u16) -> (addr: u16)
    requires
        row < 8,
        base + tile * 16 + row <= 0xFFFF,
    ensures
        addr == base + tile * 16 + row,
{
    base + tile as u16 * 16 + row
}

impl View for LineSprites {
    type V = Seq<SpriteUnit>;

    open spec fn view(&self) -> Seq<SpriteUnit> {
        self.units@.take(self.count as int)
    }
}

impl LineSprites {
    pub open spec fn wf(&self) -> bool {
        &&& self.count <= 8
        &&& forall|s: int| 0 <= s < self.count ==> #[trigger] self.units@[s].index < 64
    }
}

/// Sprite `i` as the scanline shows it.
fn sprite_unit(
    list: &SpriteList,
    i: usize,
    scanline: i32,
    tall: bool,
    base: u16,
    cart: &Cartridge,
) -> (unit: SpriteUnit)
    requires
        i < 64,
        crosses(list@[i as int], scanline as int, tall),
        scanline - list@[i as int].y >= i32::MIN,
        pattern_address(list@[i as int], scanline as int, tall, base as int) + 8 <= 0xFFFF,
    ensures
        unit == unit_of(list@, i as int, scanline as int, tall, base as int, cart@),
{
    let sp: Sprite = list.sprites[i];
    let below: u16 = (scanline - sp.y as i32) as u16;
    let rows: u16 = if tall {
        16
    } else {
        8
    };
    let row: u16 = if sp.flip_v {
        rows - 1 - below
    } else {
        below
    };
    let addr: u16 = if tall {
        tall_sprite_address(sp.tile, row)
    } else {
        sprite_address(base, sp.tile, row)
    };
    let lo: u8 = cart.read_chr(addr);
    let hi: u8 = cart.read_chr(addr + 8);
    SpriteUnit {
        lo: if sp.flip_h {
            bits::reverse(lo)
        } else {
            lo
        },
        hi: if sp.flip_h {
            bits::reverse(hi)
        } else {
            hi
        },
        x: sp.x,
        behind: sp.behind_bg,
        index: i as u8,
    }
}

/// Finds the sprites that the scanline crosses, up to eight.
pub fn find_sprites(
    list: &SpriteList,
    scanline: i32,
    tall: bool,
    base: u16,
    cart: &Cartridge,
) -> (found: LineSprites)
    requires
        addresses_fit(list@, scanline as int, tall, base as int),
    ensures
        found.wf(),
        found@ == line_sprites(list@, scanline as int, tall, base as int, cart@),
        found.overflow == (hits(list@, scanline as int, tall, 64).len() > 8),
{
    let blank: SpriteUnit = SpriteUnit { lo: 0, hi: 0, x: 0, behind: false, index: 0 };
    let mut units: [SpriteUnit; 8] = [blank;8];
    let mut count: usize = 0;
    let mut i: usize = 0;
    let mut overflow: bool = false;
    let rows: i32 = if tall {
        16
    } else {
        8
    };
    while i < 64 && !overflow
        invariant
            i <= 64,
            addresses_fit(list@, scanline as int, tall, base as int),
            rows == height(tall),
            count <= 8,
            overflow ==> i < 64 && count == 8 && crosses(list@[i as int], scanline as int, tall),
            count == hits(list@, scanline as int, tall, i as int).len(),
            forall|s: int| 0 <= s < count ==> #[trigger] units@[s].index < 64,
            forall|s: int|
                0 <= s < count ==> units@[s] == unit_of(
                    list@,
                    #[trigger] hits(list@, scanline as int, tall, i as int)[s],
                    scanline as int,
                    tall,
                    base as int,
                    cart@,
                ),
        decreases
            64 - i + (if overflow {
                0int
            } else {
                1
            }),
    {
        assert(scanline - list@[i as int].y >= i32::MIN);
        let below: i32 = scanline - list.sprites[i].y as i32;
        if 0 <= below && below < rows {
            if count >= 8 {
                overflow = true;
            } else {
                proof {
                    lemma_hits_grow(list@, scanline as int, tall, i + 1, 64);
                    let so_far = hits(list@, scanline as int, tall, i + 1);
                    assert(so_far[count as int] == i);
                    assert(hits(list@, scanline as int, tall, 64)[count as int] == i);
                }
                units[count] = sprite_unit(list, i, scanline, tall, base, cart);
                count = count + 1;
                i = i + 1;
            }
        } else {
            i = i + 1;
        }
    }
    let found: LineSprites = LineSprites { units, count, overflow };
    proof {
        lemma_hits_grow(list@, scanline as int, tall, i as int, 64);
        if overflow {
            lemma_hits_grow(list@, scanline as int, tall, i + 1, 64);
        }
        let all = hits(list@, scanline as int, tall, 64);
        assert forall|s: int| 0 <= s < count implies units@[s] == unit_of(
            list@,
            all[s],
            scanline as int,
            tall,
            base as int,
            cart@,
        ) by {
            assert(hits(list@, scanline as int, tall, i as int)[s] == all[s]);
        }
        assert(found@ =~= line_sprites(list@, scanline as int, tall, base as int, cart@));
    }
    found
}

} // verus!

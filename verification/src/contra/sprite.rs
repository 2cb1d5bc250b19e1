//! Sprite memory, parsed.

use vstd::prelude::*;
use crate::bits;

verus! {

/// One of the 64 sprites.
#[derive(Clone, Copy, Default)]
pub struct Sprite {
    /// Scanline above the sprite's first row.
    pub y: u8,
    pub tile: u8,
    /// 0-3, for the palettes 4-7.
    pub palette: u8,
    pub behind_bg: bool,
    pub flip_h: bool,
    pub flip_v: bool,
    pub x: u8,
}

pub struct SpriteList {
    pub sprites: [Sprite; 64],
}

/// All fields zero.
pub open spec fn blank_sprite() -> Sprite {
    Sprite {
        y: 0,
        tile: 0,
        palette: 0,
        behind_bg: false,
        flip_h: false,
        flip_v: false,
        x: 0,
    }
}

/// Sprite `i` of sprite memory: row, tile, attributes and column in four bytes.
pub open spec fn sprite_of(oam: Seq<u8>, i: int) -> Sprite {
    let attr = oam[4 * i + 2];
    Sprite {
        y: oam[4 * i],
        tile: oam[4 * i + 1],
        palette: (attr % 4) as u8,
        behind_bg: bits::bit8(attr, 5),
        flip_h: bits::bit8(attr, 6),
        flip_v: bits::bit8(attr, 7),
        x: oam[4 * i + 3],
    }
}

/// All sprites of sprite memory.
pub open spec fn sprites_of(oam: Seq<u8>) -> Seq<Sprite> {
    Seq::new(64, |i: int| sprite_of(oam, i))
}

/// There are 64 sprites with palettes 0-3.
pub open spec fn valid_sprites(list: Seq<Sprite>) -> bool {
    list.len() == 64 && forall|i: int| 0 <= i < 64 ==> (#[trigger] list[i]).palette < 4
}

impl View for SpriteList {
    type V = Seq<Sprite>;

    open spec fn view(&self) -> Seq<Sprite> {
        self.sprites@
    }
}

impl SpriteList {
    pub fn new() -> (list: SpriteList)
        ensures
            list@ == Seq::new(64, |i: int| blank_sprite()),
            valid_sprites(list@),
    {
        let blank: Sprite = Sprite {
            y: 0,
            tile: 0,
            palette: 0,
            behind_bg: false,
            flip_h: false,
            flip_v: false,
            x: 0,
        };
        SpriteList { sprites: [blank;64] }
    }

    /// Parses all 64 sprites of sprite memory.
    pub fn parse_oam(&mut self, oam: &[u8; 256])
        ensures
            final(self)@ == sprites_of(oam@),
            valid_sprites(final(self)@),
    {
        let mut i: usize = 0;
        while i < 64
            invariant
                i <= 64,
                forall|j: int| 0 <= j < i ==> #[trigger] self.sprites@[j] == sprite_of(oam@, j),
            decreases 64 - i,
        {
            let attr: u8 = oam[i * 4 + 2];
            proof {
                bits::lemma_bit8(attr);
            }
            self.sprites[i] = Sprite {
                y: oam[i * 4],
                tile: oam[i * 4 + 1],
                palette: attr % 4,
                behind_bg: attr & 0x20 != 0,
                flip_h: attr & 0x40 != 0,
                flip_v: attr & 0x80 != 0,
                x: oam[i * 4 + 3],
            };
            i = i + 1;
        }
    }
}

} // verus!

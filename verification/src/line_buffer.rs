//! What the sprites contribute to each column of a scanline.

use vstd::prelude::*;
use crate::contra::sprite;
use crate::contra::sprite::{Sprite, SpriteList};
use crate::sprite_unit;
use crate::sprite_unit::{LineSprites, SpritePixel, SpriteUnit};

verus! {

pub struct LineBuffer {
    pub columns: [SpritePixel; 256],
    /// False only if every column is empty.
    pub used: bool,
}

impl View for LineBuffer {
    type V = Seq<SpritePixel>;

    open spec fn view(&self) -> Seq<SpritePixel> {
        self.columns@
    }
}

/// A scanline without sprites.
pub open spec fn empty_line() -> Seq<SpritePixel> {
    Seq::new(256, |px: int| sprite_unit::no_sprite())
}

/// The scanline that shows `units`.
pub open spec fn line_of(list: Seq<Sprite>, units: Seq<SpriteUnit>) -> Seq<SpritePixel> {
    Seq::new(256, |px: int| sprite_unit::opaque_sprite(list, units, px))
}

/// Colours and palettes are in range.
pub open spec fn valid_line(line: Seq<SpritePixel>) -> bool {
    line.len() == 256 && forall|px: int|
        0 <= px < 256 ==> (#[trigger] line[px]).color < 4 && line[px].palette < 8
}

impl LineBuffer {
    pub open spec fn wf(&self) -> bool {
        &&& valid_line(self@)
        &&& !self.used ==> self@ == empty_line()
    }

    pub fn new() -> (line: LineBuffer)
        ensures
            line.wf(),
            line@ == empty_line(),
            !line.used,
    {
        let none: SpritePixel = SpritePixel { color: 0, palette: 0, behind: false, zero: false };
        let line: LineBuffer = LineBuffer { columns: [none;256], used: false };
        assert(line@ =~= empty_line());
        line
    }

    /// Shows the sprites found, the first in front.
    pub fn fill(&mut self, found: &LineSprites, list: &SpriteList)
        requires
            old(self).wf(),
            found.wf(),
            sprite::valid_sprites(list@),
        ensures
            final(self).wf(),
            final(self)@ == line_of(list@, found@),
            final(self).used == (found@.len() > 0),
    {
        if self.used {
            *self = LineBuffer::new();
        }
        self.used = found.count > 0;
        assert(self@ =~= line_of(list@, found@.take(0)));
        let mut s: usize = 0;
        while s < found.count
            invariant
                s <= found.count,
                found.wf(),
                sprite::valid_sprites(list@),
                self.used == (found.count > 0),
                valid_line(self@),
                self@ == line_of(list@, found@.take(s as int)),
            decreases found.count - s,
        {
            let unit: SpriteUnit = found.units[s];
            self.draw(&unit, list, Ghost(found@.take(s as int)));
            assert(found@.take(s + 1) =~= found@.take(s as int).push(unit));
            s = s + 1;
        }
        assert(found@.take(s as int) =~= found@);
        assert(!self.used ==> self@ =~= empty_line());
    }

    /// Draws a sprite under those already shown.
    fn draw(&mut self, unit: &SpriteUnit, list: &SpriteList, Ghost(above): Ghost<Seq<SpriteUnit>>)
        requires
            valid_line(old(self)@),
            unit.index < 64,
            sprite::valid_sprites(list@),
            old(self)@ == line_of(list@, above),
        ensures
            valid_line(final(self)@),
            final(self).used == old(self).used,
            final(self)@ == line_of(list@, above.push(*unit)),
    {
        let palette: u8 = list.sprites[unit.index as usize].palette + 4;
        let mut px: usize = unit.x as usize;
        proof {
            assert forall|p: int| 0 <= p < 256 && p < unit.x implies #[trigger] self@[p]
                == sprite_unit::opaque_sprite(list@, above.push(*unit), p) by {
                sprite_unit::lemma_front_push(above, *unit, p, 0);
            }
        }
        while px < unit.x as usize + 8 && px < 256
            invariant
                unit.x <= px <= 256,
                px <= unit.x + 8,
                unit.index < 64,
                valid_line(self@),
                self.used == old(self).used,
                palette == list@[unit.index as int].palette + 4,
                palette < 8,
                forall|p: int|
                    0 <= p < px ==> #[trigger] self@[p] == sprite_unit::opaque_sprite(
                        list@,
                        above.push(*unit),
                        p,
                    ),
                forall|p: int|
                    px <= p < 256 ==> #[trigger] self@[p] == sprite_unit::opaque_sprite(
                        list@,
                        above,
                        p,
                    ),
            decreases 256 - px,
        {
            let color: u8 = unit.color_at(px);
            let taken: bool = self.columns[px].color != 0;
            proof {
                sprite_unit::lemma_front_push(above, *unit, px as int, 0);
                sprite_unit::lemma_front_opaque(above, px as int, 0);
                assert(self@[px as int] == sprite_unit::opaque_sprite(list@, above, px as int));
            }
            if !taken && color != 0 {
                self.columns[px] = SpritePixel {
                    color,
                    palette,
                    behind: unit.behind,
                    zero: unit.index == 0,
                };
            }
            px = px + 1;
        }
        proof {
            assert forall|p: int| px <= p < 256 implies #[trigger] self@[p]
                == sprite_unit::opaque_sprite(list@, above.push(*unit), p) by {
                sprite_unit::lemma_front_push(above, *unit, p, 0);
            }
            assert(self@ =~= line_of(list@, above.push(*unit)));
        }
    }
}

} // verus!

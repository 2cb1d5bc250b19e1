//! The picture processor, drawing one RGB24 pixel per dot.

use vstd::prelude::*;
use crate::bits;
use crate::cartridge::{CartModel, Cartridge};
use crate::palette;
use crate::ppu_core;
use crate::contra::sprite;
use crate::contra::sprite::SpriteList;
use crate::ppu_core::{CoreModel, PpuCore};
use crate::sprite_unit;
use crate::sprite_unit::{LineSprites, SpritePixel, SpriteUnit};

verus! {

pub const SCREEN_W: usize = 256;

pub const SCREEN_H: usize = 240;

/// Bytes of an RGB24 frame.
pub const FRAME_BYTES: usize = 184320;

pub struct Ppu {
    pub core: PpuCore,
    pub sprite_count: usize,
    /// The first `sprite_count` of these are in use.
    pub sprite_units: [SpriteUnit; 8],
    pub framebuffer: [u8; 184320],
}

/// State of the picture processor and the picture drawn so far.
#[verifier::ext_equal]
pub ghost struct PpuModel {
    pub core: CoreModel,
    /// The sprites that the scanline shows, in priority order.
    pub sprites: Seq<SpriteUnit>,
    pub framebuffer: Seq<u8>,
}

/// No sprites and a black picture.
pub open spec fn ppu_at_power_on() -> PpuModel {
    PpuModel {
        core: ppu_core::core_at_power_on(),
        sprites: Seq::empty(),
        framebuffer: Seq::new(184320, |i: int| 0u8),
    }
}

impl PpuModel {
    pub open spec fn wf(self) -> bool {
        &&& self.core.wf()
        &&& self.sprites.len() <= 8
        &&& forall|s: int| 0 <= s < self.sprites.len() ==> #[trigger] self.sprites[s].index < 64
        &&& self.framebuffer.len() == FRAME_BYTES
    }

    pub open spec fn with_core(self, core: CoreModel) -> PpuModel {
        PpuModel { core, ..self }
    }

    /// The scanline's sprites are chosen; more than eight set the overflow flag.
    pub open spec fn sprites_evaluated(self, cart: CartModel) -> PpuModel {
        PpuModel {
            core: self.core.overflow_noted(),
            sprites: self.core.line_sprites(cart),
            ..self
        }
    }

    /// What the sprites contribute to column `px`.
    pub open spec fn sprite_pixel(self, px: int) -> SpritePixel {
        if self.core.sprites_shown(px) {
            sprite_unit::opaque_sprite(sprite::sprites_of(self.core.oam), self.sprites, px)
        } else {
            sprite_unit::no_sprite()
        }
    }

    /// The colour number of column `px`.
    pub open spec fn pixel_color(self, px: int) -> u8 {
        self.core.palette[ppu_core::mixed(
            self.core.background_pixel(px),
            self.sprite_pixel(px),
        )]
    }

    /// The current dot is drawn.
    pub open spec fn pixel_drawn(self) -> PpuModel {
        let px = self.core.dot - 1;
        let c = palette::rgb(self.pixel_color(px));
        let at = (self.core.scanline * 256 + px) * 3;
        PpuModel {
            core: self.core.hit_noted(self.sprite_pixel(px), px),
            framebuffer: self.framebuffer.update(at, c.0).update(at + 1, c.1).update(at + 2, c.2),
            ..self
        }
    }

    /// What a dot draws and fetches while rendering is on.
    pub open spec fn rendered(self, cart: CartModel) -> PpuModel {
        let drawn = if self.core.visible() && 1 <= self.core.dot <= 256 {
            self.pixel_drawn()
        } else {
            self
        };
        let fetched = drawn.with_core(drawn.core.background_cycle(cart));
        if self.core.visible() && self.core.dot == 257 {
            fetched.sprites_evaluated(cart)
        } else {
            fetched
        }
    }

    /// One dot.
    #[verifier::opaque]
    pub open spec fn ticked(self, cart: CartModel) -> PpuModel {
        let counted = self.with_core(self.core.countdown());
        let shown = if self.core.rendering() {
            counted.rendered(cart)
        } else {
            counted
        };
        shown.with_core(shown.core.blanking_cycle().advanced())
    }
}

impl PpuModel {
    /// `n` dots.
    pub open spec fn ticked_times(self, n: nat, cart: CartModel) -> PpuModel
        decreases n,
    {
        if n == 0 {
            self
        } else {
            self.ticked_times((n - 1) as nat, cart).ticked(cart)
        }
    }

    /// The vertical blanking interrupt reaches the processor within `n` dots.
    pub open spec fn nmi_within(self, n: nat, cart: CartModel) -> bool
        decreases n,
    {
        n > 0 && (self.nmi_within((n - 1) as nat, cart) || self.ticked_times(
            (n - 1) as nat,
            cart,
        ).core.nmi_arrives())
    }
}

impl View for Ppu {
    type V = PpuModel;

    open spec fn view(&self) -> PpuModel {
        PpuModel {
            core: self.core@,
            sprites: self.sprite_units@.take(self.sprite_count as int),
            framebuffer: self.framebuffer@,
        }
    }
}

impl Ppu {
    pub open spec fn wf(&self) -> bool {
        &&& self.core.wf()
        &&& self.sprite_count <= 8
        &&& forall|s: int|
            0 <= s < self.sprite_count ==> #[trigger] self.sprite_units@[s].index < 64
    }

    pub fn new() -> (ppu: Ppu)
        ensures
            ppu.wf(),
            ppu@ == ppu_at_power_on(),
    {
        let blank: SpriteUnit = SpriteUnit { lo: 0, hi: 0, x: 0, behind: false, index: 0 };
        Ppu {
            core: PpuCore::new(),
            sprite_count: 0,
            sprite_units: [blank;8],
            framebuffer: [0;184320],
        }
    }

    /// Reads one of the eight registers, which repeat through $3FFF.
    pub fn read_register(&mut self, addr: u16, cart: &Cartridge) -> (val: u8)
        requires
            old(self).wf(),
        ensures
            final(self).wf(),
            val == old(self)@.core.register_value(addr, cart@),
            final(self)@ == old(self)@.with_core(old(self)@.core.register_read(addr, cart@)),
    {
        self.core.read_register(addr, cart)
    }

    /// Writes one of the eight registers.
    pub fn write_register(&mut self, addr: u16, val: u8, cart: &mut Cartridge)
        requires
            old(self).wf(),
            old(cart).wf(),
        ensures
            final(self).wf(),
            final(cart).wf(),
            final(self)@ == old(self)@.with_core(
                old(self)@.core.register_written(addr, val, old(cart)@),
            ),
            final(cart)@ == old(self)@.core.cart_written(addr, val, old(cart)@),
    {
        self.core.write_register(addr, val, cart);
    }

    /// Copies 256 bytes into sprite memory, starting at the sprite address.
    pub fn write_oam_dma(&mut self, data: &[u8; 256])
        requires
            old(self).wf(),
        ensures
            final(self).wf(),
            final(self)@ == old(self)@.with_core(old(self)@.core.oam_filled(data@)),
    {
        self.core.write_oam_dma(data);
    }

    /// Chooses the sprites of the scanline.
    fn evaluate_sprites(&mut self, cart: &Cartridge)
        requires
            old(self).wf(),
        ensures
            final(self).wf(),
            final(self)@ == old(self)@.sprites_evaluated(cart@),
    {
        proof {
            bits::lemma_set_bits(self.core.status);
        }
        let mut list: SpriteList = SpriteList::new();
        list.parse_oam(&self.core.oam);
        let found: LineSprites = self.core.evaluate(&list, cart);
        self.sprite_count = found.count;
        self.sprite_units = found.units;
        if found.overflow {
            self.core.status = self.core.status | 0x20;
        }
    }

    /// What the sprites contribute to column `px`.
    fn sprite_at(&self, px: usize) -> (sp: SpritePixel)
        requires
            self.wf(),
            px < 256,
        ensures
            sp == self@.sprite_pixel(px as int),
            sp.color < 4,
            sp.palette < 8,
    {
        let none: SpritePixel = SpritePixel { color: 0, palette: 0, behind: false, zero: false };
        if !self.core.shows_sprites(px) {
            return none;
        }
        let mut s: usize = 0;
        while s < self.sprite_count
            invariant
                self.wf(),
                px < 256,
                s <= self.sprite_count,
                sprite_unit::front_sprite(self@.sprites, px as int, 0) == sprite_unit::front_sprite(
                    self@.sprites,
                    px as int,
                    s as int,
                ),
                self.core@.sprites_shown(px as int),
            decreases self.sprite_count - s,
        {
            let unit: SpriteUnit = self.sprite_units[s];
            assert(unit == self@.sprites[s as int]);
            let color: u8 = unit.color_at(px);
            if color != 0 {
                let attr: u8 = self.core.oam[unit.index as usize * 4 + 2];
                return SpritePixel {
                    color,
                    palette: attr % 4 + 4,
                    behind: unit.behind,
                    zero: unit.index == 0,
                };
            }
            s = s + 1;
        }
        none
    }

    /// Draws the current dot.
    fn render_pixel(&mut self)
        requires
            old(self).wf(),
            old(self)@.core.visible(),
            1 <= old(self)@.core.dot <= 256,
        ensures
            final(self).wf(),
            final(self)@ == old(self)@.pixel_drawn(),
    {
        let px: usize = self.core.dot as usize - 1;
        let py: usize = self.core.scanline as usize;
        let sp: SpritePixel = self.sprite_at(px);
        let slot: usize = self.core.mix(sp, px);
        let c: (u8, u8, u8) = palette::color_rgb(self.core.palette[slot]);
        let at: usize = (py * SCREEN_W + px) * 3;
        self.framebuffer[at] = c.0;
        self.framebuffer[at + 1] = c.1;
        self.framebuffer[at + 2] = c.2;
    }

    /// One dot; true when the vertical blanking interrupt reaches the processor.
    pub fn tick(&mut self, cart: &Cartridge) -> (nmi: bool)
        requires
            old(self).wf(),
            old(self).core.frame_count < u64::MAX,
        ensures
            final(self).wf(),
            nmi == old(self)@.core.nmi_arrives(),
            final(self)@ == old(self)@.ticked(cart@),
    {
        proof {
            reveal(PpuModel::ticked);
        }
        let nmi: bool = self.core.nmi_countdown();
        if self.core.rendering_enabled() {
            let visible: bool = self.core.scanline < 240;
            if visible && 1 <= self.core.dot && self.core.dot <= 256 {
                self.render_pixel();
            }
            self.core.background_cycle(cart);
            if visible && self.core.dot == 257 {
                self.evaluate_sprites(cart);
            }
        }
        self.core.blanking_cycle();
        self.core.advance();
        nmi
    }

    /// `n` dots; true when the vertical blanking interrupt reaches the processor on one
    /// of them.
    pub fn tick_times(&mut self, n: u32, cart: &Cartridge) -> (nmi: bool)
        requires
            old(self).wf(),
            old(self).core.frame_count + n <= u64::MAX,
        ensures
            final(self).wf(),
            nmi == old(self)@.nmi_within(n as nat, cart@),
            final(self)@ == old(self)@.ticked_times(n as nat, cart@),
            n <= final(self)@.core.position() - old(self)@.core.position() <= 2 * n,
    {
        let mut nmi: bool = false;
        let mut i: u32 = 0;
        while i < n
            invariant
                i <= n,
                self.wf(),
                old(self).core.frame_count + n <= u64::MAX,
                self.core.frame_count <= old(self).core.frame_count + i,
                self@ == old(self)@.ticked_times(i as nat, cart@),
                nmi == old(self)@.nmi_within(i as nat, cart@),
                i <= self@.core.position() - old(self)@.core.position() <= 2 * i,
            decreases n - i,
        {
            proof {
                tick_moves_one_dot(self@, cart@);
            }
            if self.tick(cart) {
                nmi = true;
            }
            i = i + 1;
        }
        nmi
    }
}

/// Every tick moves the picture on by one dot. In an odd frame that is being rendered
/// the last dot is left out.
pub proof fn tick_moves_one_dot(ppu: PpuModel, cart: CartModel)
    requires
        ppu.core.wf(),
    ensures
        ppu.ticked(cart).core.position() == ppu.core.position() + (if ppu.core.skips_dot() {
            2int
        } else {
            1
        }),
        ppu.core.frame_count <= ppu.ticked(cart).core.frame_count <= ppu.core.frame_count + 1,
{
    reveal(PpuModel::ticked);
}

} // verus!

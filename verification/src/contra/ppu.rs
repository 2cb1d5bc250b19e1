//! The picture processor, drawing whole scanlines at once.
//!
//! Sprites are resolved into a line buffer when a scanline is evaluated, and colours
//! come from a cache of the palette, so that a pixel costs two lookups.

use vstd::prelude::*;
use crate::bits;
use crate::cartridge::{CartModel, Cartridge};
use crate::palette;
use crate::ppu_core;
use crate::contra::sprite;
use crate::contra::sprite::SpriteList;
use crate::line_buffer;
use crate::line_buffer::LineBuffer;
use crate::ppu_core::{CoreModel, PpuCore};
use crate::sprite_unit;
use crate::sprite_unit::{LineSprites, SpritePixel};

verus! {

/// Pixels of a frame.
pub const FRAME_PIXELS: usize = 61440;

pub struct Ppu {
    pub core: PpuCore,
    /// What the sprites contribute to the scanline.
    pub sp_line: LineBuffer,
    pub framebuffer: [u32; 61440],
    /// `0x00RRGGBB` of each palette entry.
    pub pal_cache: [u32; 32],
}

/// State of the picture processor and the picture drawn so far.
#[verifier::ext_equal]
pub ghost struct ScanModel {
    pub core: CoreModel,
    /// What the sprites contribute to each column of the scanline.
    pub line: Seq<SpritePixel>,
    pub framebuffer: Seq<u32>,
}

/// No sprites and a black picture.
pub open spec fn ppu_at_power_on() -> ScanModel {
    ScanModel {
        core: ppu_core::core_at_power_on(),
        line: line_buffer::empty_line(),
        framebuffer: Seq::new(61440, |i: int| 0u32),
    }
}

impl CoreModel {
    /// All four bytes of a tile are fetched.
    pub open spec fn whole_tile_fetched(self, cart: CartModel) -> CoreModel {
        self.tile_fetched(cart).attribute_fetched(cart).low_fetched(cart).high_fetched(cart)
    }

    /// The fetched tile enters the shift registers and the next one is due.
    pub open spec fn tile_passed(self) -> CoreModel {
        self.tile_loaded().moved_to(ppu_core::next_x(self.v))
    }

    /// The shift registers moved by a whole tile.
    pub open spec fn tile_shifted(self) -> CoreModel {
        CoreModel {
            bg_lo_shift: (self.bg_lo_shift * 256 % 65536) as u16,
            bg_hi_shift: (self.bg_hi_shift * 256 % 65536) as u16,
            at_lo_shift: (self.at_lo_shift * 256 % 65536) as u16,
            at_hi_shift: (self.at_hi_shift * 256 % 65536) as u16,
            ..self
        }
    }

    /// A tile of the next scanline is fetched ahead.
    pub open spec fn tile_prefetched(self, cart: CartModel) -> CoreModel {
        self.whole_tile_fetched(cart).tile_passed().tile_shifted()
    }

    /// The interrupt signal reaches the processor within the scanline.
    pub open spec fn nmi_due(self) -> bool {
        self.nmi_delay > 0 && self.nmi_output && self.nmi_occurred
    }

    pub open spec fn nmi_settled(self) -> CoreModel {
        CoreModel { nmi_delay: 0, ..self }
    }

    /// A scanline without pixels: flags, interrupts and timing only.
    pub open spec fn minimally_finished(self) -> CoreModel {
        let s = self.nmi_settled();
        (if s.scanline == 241 {
            s.vblank_begun()
        } else if s.pre_render() {
            s.vblank_ended()
        } else {
            s
        }).line_begun()
    }
}

impl ScanModel {
    pub open spec fn wf(self) -> bool {
        &&& self.core.wf()
        &&& line_buffer::valid_line(self.line)
        &&& self.framebuffer.len() == FRAME_PIXELS
    }

    pub open spec fn with_core(self, core: CoreModel) -> ScanModel {
        ScanModel { core, ..self }
    }

    /// The scanline's sprites are chosen and resolved into the line buffer.
    pub open spec fn sprites_evaluated(self, cart: CartModel) -> ScanModel {
        ScanModel {
            core: self.core.overflow_noted(),
            line: line_buffer::line_of(
                sprite::sprites_of(self.core.oam),
                self.core.line_sprites(cart),
            ),
            ..self
        }
    }

    /// What the sprites contribute to column `px`.
    pub open spec fn sprite_pixel(self, px: int) -> SpritePixel {
        if self.core.sprites_shown(px) {
            self.line[px]
        } else {
            sprite_unit::no_sprite()
        }
    }

    /// The colour number of column `px`.
    pub open spec fn pixel_color(self, px: int) -> u8 {
        self.core.palette[ppu_core::mixed(
            self.core.background_pixel(px),
            self.sprite_pixel(px),
        )]
    }

    /// Column `px` of the scanline is drawn.
    pub open spec fn column_drawn(self, px: int) -> ScanModel {
        ScanModel {
            core: self.core.hit_noted(self.sprite_pixel(px), px),
            framebuffer: self.framebuffer.update(
                self.core.scanline * 256 + px,
                palette::argb(self.pixel_color(px)),
            ),
            ..self
        }
    }

    /// The first `n` columns from `px` on are drawn, the shift registers moving on.
    pub open spec fn columns_drawn(self, px: int, n: int) -> ScanModel
        decreases n,
    {
        if n <= 0 {
            self
        } else {
            let s = self.columns_drawn(px, n - 1).column_drawn(px + n - 1);
            s.with_core(s.core.pixels_shifted())
        }
    }

    /// The first `n` tiles of the scanline are drawn.
    pub open spec fn tiles_drawn(self, n: int, cart: CartModel) -> ScanModel
        decreases n,
    {
        if n <= 0 {
            self
        } else {
            let s = self.tiles_drawn(n - 1, cart);
            let d = s.with_core(s.core.whole_tile_fetched(cart)).columns_drawn(8 * (n - 1), 8);
            d.with_core(d.core.tile_passed())
        }
    }

    /// The video address moves to the start of the next row.
    pub open spec fn row_advanced(self) -> ScanModel {
        let down = self.core.moved_to(ppu_core::next_y(self.core.v));
        self.with_core(down.moved_to(ppu_core::copied_x(down.v, down.t)))
    }

    /// A visible scanline: 32 tiles are drawn, the address moves to the next row, its
    /// sprites are evaluated and its first two tiles fetched.
    #[verifier::opaque]
    pub open spec fn line_drawn(self, cart: CartModel) -> ScanModel {
        let e = self.tiles_drawn(32, cart).row_advanced().sprites_evaluated(cart);
        e.with_core(e.core.tile_prefetched(cart).tile_prefetched(cart))
    }

    /// The scanline before the first visible one.
    #[verifier::opaque]
    pub open spec fn pre_rendered(self, cart: CartModel) -> ScanModel {
        let ended = self.core.vblank_ended();
        self.with_core(
            if ended.rendering() {
                let up = ended.moved_to(ppu_core::copied_y(ended.v, ended.t));
                up.tile_prefetched(cart).tile_prefetched(cart)
            } else {
                ended
            },
        )
    }

    /// A whole scanline.
    pub open spec fn scanline_finished(self, cart: CartModel) -> ScanModel {
        let s = self.with_core(self.core.nmi_settled());
        let done = if s.core.visible() {
            if s.core.rendering() {
                s.line_drawn(cart)
            } else {
                s
            }
        } else if s.core.scanline == 241 {
            s.with_core(s.core.vblank_begun())
        } else if s.core.pre_render() {
            s.pre_rendered(cart)
        } else {
            s
        };
        done.with_core(done.core.line_begun())
    }

    /// What a dot draws and fetches while rendering is on.
    pub open spec fn rendered(self, cart: CartModel) -> ScanModel {
        let drawn = if self.core.visible() && 1 <= self.core.dot <= 256 {
            self.column_drawn(self.core.dot - 1)
        } else {
            self
        };
        let fetched = drawn.with_core(drawn.core.background_cycle(cart));
        if self.core.visible() && self.core.dot == 257 {
            fetched.sprites_evaluated(cart)
        } else {
            fetched
        }
    }

    /// One dot.
    #[verifier::opaque]
    pub open spec fn ticked(self, cart: CartModel) -> ScanModel {
        let counted = self.with_core(self.core.countdown());
        let shown = if self.core.rendering() {
            counted.rendered(cart)
        } else {
            counted
        };
        shown.with_core(shown.core.blanking_cycle().advanced())
    }
}

impl View for Ppu {
    type V = ScanModel;

    open spec fn view(&self) -> ScanModel {
        ScanModel {
            core: self.core@,
            line: self.sp_line@,
            framebuffer: self.framebuffer@,
        }
    }
}

impl PpuCore {
    /// Fetches all four bytes of a tile.
    fn fetch_tile(&mut self, cart: &Cartridge)
        requires
            old(self).wf(),
        ensures
            final(self).wf(),
            final(self)@ == old(self)@.whole_tile_fetched(cart@),
    {
        self.fetch_nt_byte(cart);
        self.fetch_at_byte(cart);
        self.fetch_tile_lo(cart);
        self.fetch_tile_hi(cart);
    }

    /// Loads the fetched tile and moves to the next one.
    fn pass_tile(&mut self)
        requires
            old(self).wf(),
        ensures
            final(self).wf(),
            final(self)@ == old(self)@.tile_passed(),
    {
        self.load_bg_shifters();
        self.increment_x();
    }

    /// Fetches one tile of the next scanline.
    fn prefetch_tile(&mut self, cart: &Cartridge)
        requires
            old(self).wf(),
        ensures
            final(self).wf(),
            final(self)@ == old(self)@.tile_prefetched(cart@),
    {
        self.fetch_tile(cart);
        self.pass_tile();
        self.bg_lo_shift = shift_tile(self.bg_lo_shift);
        self.bg_hi_shift = shift_tile(self.bg_hi_shift);
        self.at_lo_shift = shift_tile(self.at_lo_shift);
        self.at_hi_shift = shift_tile(self.at_hi_shift);
    }

    /// Settles a pending interrupt; true when it reaches the processor.
    fn settle_nmi(&mut self) -> (nmi: bool)
        requires
            old(self).wf(),
        ensures
            final(self).wf(),
            nmi == old(self)@.nmi_due(),
            final(self)@ == old(self)@.nmi_settled(),
    {
        let nmi: bool = self.nmi_delay > 0 && self.nmi_output && self.nmi_occurred;
        self.nmi_delay = 0;
        nmi
    }
}

/// A shift register moved by eight pixels.
fn shift_tile(s: u16) -> (r: u16)
    ensures
        r == s * 256 % 65536,
{
    (s % 256) * 256
}

impl Ppu {
    pub open spec fn wf(&self) -> bool {
        &&& self.core.wf()
        &&& self.sp_line.wf()
        &&& self.cache_current()
    }

    /// The cache agrees with the palette.
    pub open spec fn cache_current(&self) -> bool {
        forall|i: int|
            0 <= i < 32 ==> #[trigger] self.pal_cache@[i] == palette::argb(self.core.palette@[i])
    }

    pub fn new() -> (ppu: Ppu)
        ensures
            ppu.wf(),
            ppu@ == ppu_at_power_on(),
    {
        let mut ppu: Ppu = Ppu {
            core: PpuCore::new(),
            sp_line: LineBuffer::new(),
            framebuffer: [0;61440],
            pal_cache: [0;32],
        };
        ppu.rebuild_pal_cache();
        ppu
    }

    fn rebuild_pal_cache(&mut self)
        ensures
            final(self).cache_current(),
            *final(self) == (Ppu { pal_cache: final(self).pal_cache, ..*old(self) }),
    {
        let mut i: usize = 0;
        while i < 32
            invariant
                i <= 32,
                *self == (Ppu { pal_cache: self.pal_cache, ..*old(self) }),
                forall|j: int|
                    0 <= j < i ==> #[trigger] self.pal_cache@[j] == palette::argb(
                        self.core.palette@[j],
                    ),
            decreases 32 - i,
        {
            let c: (u8, u8, u8) = palette::color_rgb(self.core.palette[i]);
            self.pal_cache[i] = palette::pack(c.0, c.1, c.2);
            i = i + 1;
        }
    }

    /// Reads one of the eight registers, which repeat through $3FFF.
    pub fn read_register(&mut self, addr: u16, cart: &Cartridge) -> (val: u8)
        requires
            old(self).wf(),
        ensures
            final(self).wf(),
            val == old(self)@.core.register_value(addr, cart@),
            final(self)@ == old(self)@.with_core(old(self)@.core.register_read(addr, cart@)),
    {
        self.core.read_register(addr, cart)
    }

    /// Writes one of the eight registers.
    pub fn write_register(&mut self, addr: u16, val: u8, cart: &mut Cartridge)
        requires
            old(self).wf(),
            old(cart).wf(),
        ensures
            final(self).wf(),
            final(cart).wf(),
            final(self)@ == old(self)@.with_core(
                old(self)@.core.register_written(addr, val, old(cart)@),
            ),
            final(cart)@ == old(self)@.core.cart_written(addr, val, old(cart)@),
    {
        let recolors: bool = addr % 8 == 7 && self.core.v % 0x4000 >= 0x3F00;
        self.core.write_register(addr, val, cart);
        if recolors {
            self.rebuild_pal_cache();
        }
    }

    /// Copies 256 bytes into sprite memory, starting at the sprite address.
    pub fn write_oam_dma(&mut self, data: &[u8; 256])
        requires
            old(self).wf(),
        ensures
            final(self).wf(),
            final(self)@ == old(self)@.with_core(old(self)@.core.oam_filled(data@)),
    {
        self.core.write_oam_dma(data);
    }

    /// Chooses the sprites of the scanline and resolves them into the line buffer.
    fn evaluate_sprites(&mut self, cart: &Cartridge)
        requires
            old(self).wf(),
        ensures
            final(self).wf(),
            final(self)@ == old(self)@.sprites_evaluated(cart@),
    {
        proof {
            bits::lemma_set_bits(self.core.status);
        }
        let mut list: SpriteList = SpriteList::new();
        list.parse_oam(&self.core.oam);
        let found: LineSprites = self.core.evaluate(&list, cart);
        self.sp_line.fill(&found, &list);
        if found.overflow {
            self.core.status = self.core.status | 0x20;
        }
    }

    /// Fetches the first two tiles of the next scanline.
    fn prefetch_two_tiles(&mut self, cart: &Cartridge)
        requires
            old(self).wf(),
        ensures
            final(self).wf(),
            final(self)@ == old(self)@.with_core(
                old(self)@.core.tile_prefetched(cart@).tile_prefetched(cart@),
            ),
    {
        self.core.prefetch_tile(cart);
        self.core.prefetch_tile(cart);
    }

    /// Draws column `px` of the scanline. With `sprites` false no sprite is looked up.
    fn draw_column(&mut self, px: usize, sprites: bool)
        requires
            old(self).wf(),
            old(self)@.core.visible(),
            px < 256,
            sprites || old(self)@.sprite_pixel(px as int) == sprite_unit::no_sprite(),
        ensures
            final(self).wf(),
            final(self)@ == old(self)@.column_drawn(px as int),
            final(self).sp_line.used == old(self).sp_line.used,
    {
        let none: SpritePixel = SpritePixel { color: 0, palette: 0, behind: false, zero: false };
        let sp: SpritePixel = if sprites && self.core.shows_sprites(px) {
            self.sp_line.columns[px]
        } else {
            none
        };
        let py: usize = self.core.scanline as usize;
        let slot: usize = self.core.mix(sp, px);
        self.framebuffer[py * 256 + px] = self.pal_cache[slot];
    }

    /// Draws the 32 tiles of a visible scanline.
    #[verifier::rlimit(60)]
    #[verifier::spinoff_prover]
    fn render_scanline_pixels(&mut self, cart: &Cartridge)
        requires
            old(self).wf(),
            old(self)@.core.visible(),
        ensures
            final(self).wf(),
            final(self)@ == old(self)@.tiles_drawn(32, cart@),
            final(self).core.frame_count == old(self).core.frame_count,
    {
        proof {
            bits::lemma_bit8(self.core.mask);
        }
        let sprites: bool = self.sp_line.used && self.core.mask & 0x10 != 0;
        let mut tile: usize = 0;
        while tile < 32
            invariant
                tile <= 32,
                self.wf(),
                self@.core.visible(),
                self@ == old(self)@.tiles_drawn(tile as int, cart@),
                self.core.frame_count == old(self).core.frame_count,
                sprites == (self.sp_line.used && bits::bit8(self.core.mask, 4)),
            decreases 32 - tile,
        {
            self.core.fetch_tile(cart);
            self.render_tile(tile * 8, sprites);
            self.core.pass_tile();
            tile = tile + 1;
        }
    }

    /// Draws eight columns from `start` on.
    fn render_tile(&mut self, start: usize, sprites: bool)
        requires
            old(self).wf(),
            old(self)@.core.visible(),
            start <= 248,
            sprites == (old(self).sp_line.used && bits::bit8(old(self).core.mask, 4)),
        ensures
            final(self).wf(),
            final(self)@ == old(self)@.columns_drawn(start as int, 8),
            final(self).core.frame_count == old(self).core.frame_count,
            final(self)@.core.visible(),
            final(self).core.mask == old(self).core.mask,
            final(self).sp_line.used == old(self).sp_line.used,
    {
        let mut sub: usize = 0;
        while sub < 8
            invariant
                sub <= 8,
                start <= 248,
                self.wf(),
                self@.core.visible(),
                self@ == old(self)@.columns_drawn(start as int, sub as int),
                self.core.frame_count == old(self).core.frame_count,
                self.core.mask == old(self).core.mask,
                self.sp_line.used == old(self).sp_line.used,
                sprites == (self.sp_line.used && bits::bit8(self.core.mask, 4)),
            decreases 8 - sub,
        {
            self.draw_column(start + sub, sprites);
            self.core.shift_bg();
            sub = sub + 1;
        }
    }

    /// A visible scanline: draws it and prepares the next one.
    fn draw_line(&mut self, cart: &Cartridge)
        requires
            old(self).wf(),
            old(self)@.core.visible(),
        ensures
            final(self).wf(),
            final(self)@ == old(self)@.line_drawn(cart@),
            final(self).core.frame_count == old(self).core.frame_count,
    {
        proof {
            reveal(ScanModel::line_drawn);
        }
        self.render_scanline_pixels(cart);
        self.next_row();
        self.evaluate_sprites(cart);
        self.prefetch_two_tiles(cart);
    }

    /// Moves the video address to the start of the next row.
    fn next_row(&mut self)
        requires
            old(self).wf(),
        ensures
            final(self).wf(),
            final(self)@ == old(self)@.row_advanced(),
    {
        self.core.increment_y();
        self.core.copy_x();
    }

    /// The scanline before the first visible one.
    fn pre_render(&mut self, cart: &Cartridge)
        requires
            old(self).wf(),
        ensures
            final(self).wf(),
            final(self)@ == old(self)@.pre_rendered(cart@),
            final(self).core.frame_count == old(self).core.frame_count,
    {
        proof {
            reveal(ScanModel::pre_rendered);
        }
        self.core.end_vblank();
        if self.core.rendering_enabled() {
            self.core.copy_y();
            self.prefetch_two_tiles(cart);
        }
    }

    /// Runs a whole scanline; true when the vertical blanking interrupt reaches the
    /// processor.
    pub fn finish_scanline(&mut self, cart: &Cartridge) -> (nmi: bool)
        requires
            old(self).wf(),
            old(self).core.frame_count < u64::MAX,
        ensures
            final(self).wf(),
            nmi == old(self)@.core.nmi_due(),
            final(self)@ == old(self)@.scanline_finished(cart@),
    {
        let nmi: bool = self.core.settle_nmi();
        let sl: i32 = self.core.scanline;
        if sl < 240 {
            if self.core.rendering_enabled() {
                self.draw_line(cart);
            }
        } else if sl == 241 {
            self.core.begin_vblank();
        } else if sl == 261 {
            self.pre_render(cart);
        }
        self.core.begin_line();
        nmi
    }

    /// Runs a scanline without drawing: flags, interrupts and timing only.
    pub fn finish_scanline_minimal(&mut self, cart: &Cartridge) -> (nmi: bool)
        requires
            old(self).wf(),
            old(self).core.frame_count < u64::MAX,
        ensures
            final(self).wf(),
            nmi == old(self)@.core.nmi_due(),
            final(self)@ == old(self)@.with_core(old(self)@.core.minimally_finished()),
    {
        let nmi: bool = self.core.settle_nmi();
        if self.core.scanline == 241 {
            self.core.begin_vblank();
        } else if self.core.scanline == 261 {
            self.core.end_vblank();
        }
        self.core.begin_line();
        nmi
    }

    /// What a dot draws and fetches while rendering is on.
    fn render_dot(&mut self, cart: &Cartridge)
        requires
            old(self).wf(),
        ensures
            final(self).wf(),
            final(self)@ == old(self)@.rendered(cart@),
    {
        let visible: bool = self.core.scanline < 240;
        if visible && 1 <= self.core.dot && self.core.dot <= 256 {
            self.draw_column(self.core.dot as usize - 1, self.sp_line.used);
        }
        self.core.background_cycle(cart);
        if visible && self.core.dot == 257 {
            self.evaluate_sprites(cart);
        }
    }

    /// One dot; true when the vertical blanking interrupt reaches the processor.
    pub fn tick(&mut self, cart: &Cartridge) -> (nmi: bool)
        requires
            old(self).wf(),
            old(self).core.frame_count < u64::MAX,
        ensures
            final(self).wf(),
            nmi == old(self)@.core.nmi_arrives(),
            final(self)@ == old(self)@.ticked(cart@),
    {
        proof {
            reveal(ScanModel::ticked);
        }
        let nmi: bool = self.core.nmi_countdown();
        if self.core.rendering_enabled() {
            self.render_dot(cart);
        }
        self.core.blanking_cycle();
        self.core.advance();
        nmi
    }
}

} // verus!

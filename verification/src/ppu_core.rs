//! The part of the 2C02 picture processor that every renderer shares: registers,
//! video memory, scrolling, the background fetch pipeline and timing.
//!
//! A frame has 262 scanlines of 341 dots. Scanlines 0-239 are visible, vertical
//! blanking starts on scanline 241 and scanline 261 prepares the next frame.

use vstd::prelude::*;
use crate::bits;
use crate::cartridge;
use crate::cartridge::{CartModel, Cartridge};
use crate::contra::sprite;
use crate::contra::sprite::SpriteList;
use crate::sprite_unit;
use crate::sprite_unit::{find_sprites, LineSprites, SpritePixel, SpriteUnit};

verus! {

pub struct PpuCore {
    /// Nametable RAM.
    pub nt_ram: [u8; 2048],
    /// Palette RAM.
    pub palette: [u8; 32],
    /// Sprite attribute memory.
    pub oam: [u8; 256],
    /// $2000.
    pub ctrl: u8,
    /// $2001.
    pub mask: u8,
    /// $2002.
    pub status: u8,
    /// $2003.
    pub oam_addr: u8,
    /// Current video address.
    pub v: u16,
    /// Temporary video address.
    pub t: u16,
    /// Fine X scroll.
    pub x: u8,
    /// Second write of a pair is due.
    pub w: bool,
    pub read_buf: u8,
    pub open_bus: u8,
    pub scanline: i32,
    pub dot: u32,
    pub frame_count: u64,
    pub odd_frame: bool,
    pub bg_lo_shift: u16,
    pub bg_hi_shift: u16,
    pub at_lo_shift: u16,
    pub at_hi_shift: u16,
    pub nt_byte: u8,
    pub at_byte: u8,
    pub bg_lo: u8,
    pub bg_hi: u8,
    /// Interrupts are enabled in $2000.
    pub nmi_output: bool,
    /// Vertical blanking has begun and was not acknowledged.
    pub nmi_occurred: bool,
    /// The interrupt signal.
    pub nmi_line: bool,
    /// Dots until the signal reaches the processor.
    pub nmi_delay: u8,
}

/// The picture processor's state.
#[verifier::ext_equal]
pub ghost struct CoreModel {
    pub nt_ram: Seq<u8>,
    pub palette: Seq<u8>,
    pub oam: Seq<u8>,
    pub ctrl: u8,
    pub mask: u8,
    pub status: u8,
    pub oam_addr: u8,
    pub v: u16,
    pub t: u16,
    pub x: u8,
    pub w: bool,
    pub read_buf: u8,
    pub open_bus: u8,
    pub scanline: int,
    pub dot: int,
    pub frame_count: int,
    pub odd_frame: bool,
    pub bg_lo_shift: u16,
    pub bg_hi_shift: u16,
    pub at_lo_shift: u16,
    pub at_hi_shift: u16,
    pub nt_byte: u8,
    pub at_byte: u8,
    pub bg_lo: u8,
    pub bg_hi: u8,
    pub nmi_output: bool,
    pub nmi_occurred: bool,
    pub nmi_line: bool,
    pub nmi_delay: u8,
}

/// Tile column of a video address.
pub open spec fn coarse_x(v: u16) -> int {
    v as int % 32
}

/// Tile row of a video address.
pub open spec fn coarse_y(v: u16) -> int {
    v as int / 32 % 32
}

/// Nametable of a video address: bit 0 selects left or right, bit 1 top or bottom.
pub open spec fn nametable(v: u16) -> int {
    v as int / 1024 % 4
}

pub open spec fn nametable_x(v: u16) -> int {
    v as int / 1024 % 2
}

pub open spec fn nametable_y(v: u16) -> int {
    v as int / 2048 % 2
}

/// Pixel row inside a tile.
pub open spec fn fine_y(v: u16) -> int {
    v as int / 4096 % 8
}

/// The other nametable in the same row.
pub open spec fn flip_x(v: int) -> int {
    if v / 1024 % 2 == 0 {
        v + 1024
    } else {
        v - 1024
    }
}

/// The other nametable in the same column.
pub open spec fn flip_y(v: int) -> int {
    if v / 2048 % 2 == 0 {
        v + 2048
    } else {
        v - 2048
    }
}

/// One tile to the right; past column 31 comes column 0 of the next nametable.
pub open spec fn next_x(v: u16) -> u16 {
    if coarse_x(v) == 31 {
        flip_x(v - 31) as u16
    } else {
        (v + 1) as u16
    }
}

/// One pixel row down; past row 29 comes row 0 of the next nametable. Rows 30 and
/// 31 hold attributes: past row 31 the nametable stays.
pub open spec fn next_y(v: u16) -> u16 {
    if fine_y(v) < 7 {
        (v + 4096) as u16
    } else if coarse_y(v) == 29 {
        flip_y(v - 7 * 4096 - 29 * 32) as u16
    } else if coarse_y(v) == 31 {
        (v - 7 * 4096 - 31 * 32) as u16
    } else {
        (v - 7 * 4096 + 32) as u16
    }
}

/// `v` with the horizontal position of `t`.
pub open spec fn copied_x(v: u16, t: u16) -> u16 {
    (v - coarse_x(v) - nametable_x(v) * 1024 + coarse_x(t) + nametable_x(t) * 1024) as u16
}

/// `v` with the vertical position of `t`.
pub open spec fn copied_y(v: u16, t: u16) -> u16 {
    (v - coarse_y(v) * 32 - nametable_y(v) * 2048 - fine_y(v) * 4096 + coarse_y(t) * 32
        + nametable_y(t) * 2048 + fine_y(t) * 4096) as u16
}

/// `t` with another nametable.
pub open spec fn with_nametable(t: u16, n: int) -> u16 {
    (t - nametable(t) * 1024 + n * 1024) as u16
}

/// `t` with another tile column.
pub open spec fn with_coarse_x(t: u16, n: int) -> u16 {
    (t - coarse_x(t) + n) as u16
}

/// `t` with another tile row and pixel row.
pub open spec fn with_y(t: u16, row: int, fine: int) -> u16 {
    (t - coarse_y(t) * 32 - fine_y(t) * 4096 + row * 32 + fine * 4096) as u16
}

/// The attribute byte that covers a tile.
pub open spec fn attribute_address(v: u16) -> u16 {
    (0x23C0 + nametable(v) * 1024 + coarse_y(v) / 4 * 8 + coarse_x(v) / 4) as u16
}

/// Which two bits of the attribute byte belong to a tile.
pub open spec fn attribute_shift(v: u16) -> int {
    coarse_y(v) / 2 % 2 * 4 + coarse_x(v) / 2 % 2 * 2
}

/// The slot of palette RAM at an address: the first entry of each sprite palette is
/// shared with the background palette below it.
pub open spec fn palette_slot(addr: int) -> int {
    let p = addr % 32;
    if p >= 16 && p % 4 == 0 {
        p - 16
    } else {
        p
    }
}

/// A shift register moved one pixel to the left.
pub open spec fn shifted(s: u16) -> u16 {
    (2 * s % 65536) as u16
}

/// A shift register with its low byte replaced.
pub open spec fn loaded(s: u16, low: u8) -> u16 {
    (s - s % 256 + low) as u16
}

/// Eight copies of a palette bit.
pub open spec fn spread(on: bool) -> u8 {
    if on {
        255
    } else {
        0
    }
}

impl CoreModel {
    pub open spec fn wf(self) -> bool {
        &&& self.nt_ram.len() == 2048
        &&& self.palette.len() == 32
        &&& self.oam.len() == 256
        &&& self.x < 8
        &&& 0 <= self.scanline < 262
        &&& 0 <= self.dot < 341
    }

    /// The byte at a video address.
    pub open spec fn vram(self, addr: int, cart: CartModel) -> u8 {
        let a = addr % 16384;
        if a < 0x2000 {
            cart.chr_at(a)
        } else if a < 0x3F00 {
            self.nt_ram[cartridge::nametable_slot(cart.mirroring, (0x2000 + a % 4096) as u16)]
        } else {
            self.palette[palette_slot(a)]
        }
    }

    /// After `val` is stored at the current video address.
    pub open spec fn vram_stored(self, val: u8, cart: CartModel) -> CoreModel {
        let a = self.v as int % 16384;
        if a < 0x2000 {
            self
        } else if a < 0x3F00 {
            CoreModel {
                nt_ram: self.nt_ram.update(
                    cartridge::nametable_slot(cart.mirroring, (0x2000 + a % 4096) as u16),
                    val,
                ),
                ..self
            }
        } else {
            CoreModel { palette: self.palette.update(palette_slot(a), val), ..self }
        }
    }

    /// The cartridge after `val` is stored at the current video address.
    pub open spec fn cart_stored(self, val: u8, cart: CartModel) -> CartModel {
        if self.v as int % 16384 < 0x2000 {
            cart.storing((self.v as int % 16384) as u16, val)
        } else {
            cart
        }
    }

    /// The video address moves by 1, or by a row of 32 if bit 2 of $2000 is set.
    pub open spec fn address_moved(self) -> CoreModel {
        CoreModel {
            v: self.v.wrapping_add(
                if bits::bit8(self.ctrl, 2) {
                    32
                } else {
                    1
                },
            ),
            ..self
        }
    }

    /// The interrupt signal follows its two inputs; when it rises the processor sees
    /// it 15 dots later.
    pub open spec fn nmi_updated(self) -> CoreModel {
        let nmi = self.nmi_output && self.nmi_occurred;
        CoreModel {
            nmi_line: nmi,
            nmi_delay: if nmi && !self.nmi_line {
                15
            } else {
                self.nmi_delay
            },
            ..self
        }
    }

    /// The value that a register read yields.
    pub open spec fn register_value(self, addr: u16, cart: CartModel) -> u8 {
        let r = addr as int % 8;
        if r == 2 {
            (self.status / 32 * 32 + self.open_bus % 32) as u8
        } else if r == 4 {
            self.oam[self.oam_addr as int]
        } else if r == 7 {
            if self.v as int % 16384 < 0x3F00 {
                self.read_buf
            } else {
                self.vram(self.v as int, cart)
            }
        } else {
            self.open_bus
        }
    }

    /// After a register read. Reading $2002 acknowledges vertical blanking and resets
    /// the write pair; reading $2007 refills the read buffer and moves the address.
    pub open spec fn register_read(self, addr: u16, cart: CartModel) -> CoreModel {
        let r = addr as int % 8;
        let val = self.register_value(addr, cart);
        if r == 2 {
            CoreModel {
                status: (self.status % 128) as u8,
                nmi_occurred: false,
                w: false,
                open_bus: val,
                ..self
            }.nmi_updated()
        } else if r == 4 {
            CoreModel { open_bus: val, ..self }
        } else if r == 7 {
            CoreModel {
                read_buf: if self.v as int % 16384 < 0x3F00 {
                    self.vram(self.v as int, cart)
                } else {
                    self.vram(self.v - 0x1000, cart)
                },
                open_bus: val,
                ..self
            }.address_moved()
        } else {
            self
        }
    }

    /// After a register write.
    pub open spec fn register_written(self, addr: u16, val: u8, cart: CartModel) -> CoreModel {
        let r = addr as int % 8;
        let s = CoreModel { open_bus: val, ..self };
        if r == 0 {
            CoreModel {
                ctrl: val,
                nmi_output: bits::bit8(val, 7),
                t: with_nametable(self.t, val as int % 4),
                ..s
            }.nmi_updated()
        } else if r == 1 {
            CoreModel { mask: val, ..s }
        } else if r == 3 {
            CoreModel { oam_addr: val, ..s }
        } else if r == 4 {
            CoreModel {
                oam: self.oam.update(self.oam_addr as int, val),
                oam_addr: self.oam_addr.wrapping_add(1),
                ..s
            }
        } else if r == 5 {
            if !self.w {
                CoreModel {
                    t: with_coarse_x(self.t, val as int / 8),
                    x: (val % 8) as u8,
                    w: true,
                    ..s
                }
            } else {
                CoreModel { t: with_y(self.t, val as int / 8, val as int % 8), w: false, ..s }
            }
        } else if r == 6 {
            if !self.w {
                CoreModel { t: (self.t % 256 + val % 64 * 256) as u16, w: true, ..s }
            } else {
                let t = (self.t - self.t % 256 + val) as u16;
                CoreModel { t, v: t, w: false, ..s }
            }
        } else if r == 7 {
            s.vram_stored(val, cart).address_moved()
        } else {
            s
        }
    }

    /// The cartridge after a register write: only $2007 can reach it.
    pub open spec fn cart_written(self, addr: u16, val: u8, cart: CartModel) -> CartModel {
        if addr as int % 8 == 7 {
            self.cart_stored(val, cart)
        } else {
            cart
        }
    }

    /// After a transfer of 256 bytes into sprite memory, starting at the sprite
    /// address and wrapping around.
    pub open spec fn oam_filled(self, data: Seq<u8>) -> CoreModel {
        CoreModel { oam: Seq::new(256, |j: int| data[(j - self.oam_addr) % 256]), ..self }
    }

    /// Background or sprites are shown.
    pub open spec fn rendering(self) -> bool {
        bits::bit8(self.mask, 3) || bits::bit8(self.mask, 4)
    }

    pub open spec fn visible(self) -> bool {
        self.scanline < 240
    }

    pub open spec fn pre_render(self) -> bool {
        self.scanline == 261
    }

    pub open spec fn render_line(self) -> bool {
        self.visible() || self.pre_render()
    }

    /// The tile index under the current video address.
    pub open spec fn tile_fetched(self, cart: CartModel) -> CoreModel {
        CoreModel {
            nt_byte: self.nt_ram[cartridge::nametable_slot(
                cart.mirroring,
                (0x2000 + self.v as int % 4096) as u16,
            )],
            ..self
        }
    }

    /// The palette of the tile under the current video address.
    pub open spec fn attribute_fetched(self, cart: CartModel) -> CoreModel {
        let b = self.nt_ram[cartridge::nametable_slot(cart.mirroring, attribute_address(self.v))];
        CoreModel { at_byte: (b as int / bits::weight(attribute_shift(self.v)) % 4) as u8, ..self }
    }

    /// Where the current pixel row of the fetched tile begins.
    pub open spec fn pattern_address(self) -> int {
        (if bits::bit8(self.ctrl, 4) {
            0x1000int
        } else {
            0
        }) + self.nt_byte * 16 + fine_y(self.v)
    }

    pub open spec fn low_fetched(self, cart: CartModel) -> CoreModel {
        CoreModel { bg_lo: cart.chr_at(self.pattern_address()), ..self }
    }

    pub open spec fn high_fetched(self, cart: CartModel) -> CoreModel {
        CoreModel { bg_hi: cart.chr_at(self.pattern_address() + 8), ..self }
    }

    /// The fetched tile enters the shift registers, its palette spread over 8 pixels.
    pub open spec fn tile_loaded(self) -> CoreModel {
        CoreModel {
            bg_lo_shift: loaded(self.bg_lo_shift, self.bg_lo),
            bg_hi_shift: loaded(self.bg_hi_shift, self.bg_hi),
            at_lo_shift: loaded(self.at_lo_shift, spread(bits::bit8(self.at_byte, 0))),
            at_hi_shift: loaded(self.at_hi_shift, spread(bits::bit8(self.at_byte, 1))),
            ..self
        }
    }

    pub open spec fn pixels_shifted(self) -> CoreModel {
        CoreModel {
            bg_lo_shift: shifted(self.bg_lo_shift),
            bg_hi_shift: shifted(self.bg_hi_shift),
            at_lo_shift: shifted(self.at_lo_shift),
            at_hi_shift: shifted(self.at_hi_shift),
            ..self
        }
    }

    pub open spec fn moved_to(self, v: u16) -> CoreModel {
        CoreModel { v, ..self }
    }

    /// One dot of the background pipeline: a shift, and every other dot a fetch.
    pub open spec fn fetch_cycle(self, cart: CartModel) -> CoreModel {
        let s = self.pixels_shifted();
        let phase = self.dot % 8;
        if phase == 1 {
            s.tile_fetched(cart)
        } else if phase == 3 {
            s.attribute_fetched(cart)
        } else if phase == 5 {
            s.low_fetched(cart)
        } else if phase == 7 {
            let f = s.high_fetched(cart).tile_loaded();
            f.moved_to(next_x(f.v))
        } else {
            s
        }
    }

    /// Everything that one dot does to the background while rendering is on.
    pub open spec fn background_cycle(self, cart: CartModel) -> CoreModel {
        let s = if self.render_line() && (1 <= self.dot <= 256 || 321 <= self.dot <= 336) {
            self.fetch_cycle(cart)
        } else {
            self
        };
        if self.render_line() && self.dot == 256 {
            s.moved_to(next_y(s.v))
        } else if self.render_line() && self.dot == 257 {
            s.moved_to(copied_x(s.v, s.t))
        } else if self.pre_render() && 280 <= self.dot <= 304 {
            s.moved_to(copied_y(s.v, s.t))
        } else {
            s
        }
    }

    /// The interrupt signal travels one dot.
    pub open spec fn countdown(self) -> CoreModel {
        CoreModel {
            nmi_delay: if self.nmi_delay > 0 {
                (self.nmi_delay - 1) as u8
            } else {
                0
            },
            ..self
        }
    }

    /// The interrupt signal reaches the processor on this dot.
    pub open spec fn nmi_arrives(self) -> bool {
        self.nmi_delay == 1 && self.nmi_output && self.nmi_occurred
    }

    /// Vertical blanking begins.
    pub open spec fn vblank_begun(self) -> CoreModel {
        CoreModel { status: bits::with_bit(self.status, 7), nmi_occurred: true, ..self }.nmi_updated()
    }

    /// Vertical blanking ends; the sprite flags are cleared with it.
    pub open spec fn vblank_ended(self) -> CoreModel {
        CoreModel { status: (self.status % 32) as u8, nmi_occurred: false, ..self }.nmi_updated()
    }

    /// Flags change on dot 1 of scanlines 241 and 261.
    pub open spec fn blanking_cycle(self) -> CoreModel {
        if self.scanline == 241 && self.dot == 1 {
            self.vblank_begun()
        } else if self.pre_render() && self.dot == 1 {
            self.vblank_ended()
        } else {
            self
        }
    }

    pub open spec fn frame_begun(self) -> CoreModel {
        CoreModel {
            dot: 0,
            scanline: 0,
            odd_frame: !self.odd_frame,
            frame_count: self.frame_count + 1,
            ..self
        }
    }

    pub open spec fn line_begun(self) -> CoreModel {
        if self.scanline == 261 {
            self.frame_begun()
        } else {
            CoreModel { dot: 0, scanline: self.scanline + 1, ..self }
        }
    }

    /// To the next dot. Odd frames skip the last dot of scanline 261 while rendering.
    pub open spec fn advanced(self) -> CoreModel {
        if self.skips_dot() {
            self.frame_begun()
        } else if self.dot == 340 {
            self.line_begun()
        } else {
            CoreModel { dot: self.dot + 1, ..self }
        }
    }

    /// Dots since power-on, counting 262 scanlines of 341 dots in every frame.
    pub open spec fn position(self) -> int {
        self.frame_count * 89342 + self.scanline * 341 + self.dot
    }

    /// The same frame, scanline and dot.
    pub open spec fn at_same_dot(self, other: CoreModel) -> bool {
        &&& self.frame_count == other.frame_count
        &&& self.scanline == other.scanline
        &&& self.dot == other.dot
    }

    /// This dot is skipped to the next frame.
    pub open spec fn skips_dot(self) -> bool {
        self.rendering() && self.odd_frame && self.scanline == 261 && self.dot == 339
    }

    /// The background's colour and palette at a bit of the shift registers.
    pub open spec fn background_bits(self, bit: int) -> (int, int) {
        (
            reg_bit(self.bg_lo_shift, bit) + 2 * reg_bit(self.bg_hi_shift, bit),
            reg_bit(self.at_lo_shift, bit) + 2 * reg_bit(self.at_hi_shift, bit),
        )
    }

    /// The background is drawn in column `px`: it is on, and not masked out of the
    /// leftmost eight columns.
    pub open spec fn background_shown(self, px: int) -> bool {
        bits::bit8(self.mask, 3) && (px >= 8 || bits::bit8(self.mask, 1))
    }

    /// The background's colour and palette in column `px`.
    pub open spec fn background_pixel(self, px: int) -> (int, int) {
        if self.background_shown(px) {
            self.background_bits(15 - self.x)
        } else {
            (0, 0)
        }
    }

    /// After the pixel of column `px`: only the hit flag can change.
    pub open spec fn hit_noted(self, sp: SpritePixel, px: int) -> CoreModel {
        if zero_hit(self.background_pixel(px), sp, px) {
            CoreModel { status: bits::with_bit(self.status, 6), ..self }
        } else {
            self
        }
    }

    /// Sprites are drawn in column `px`.
    pub open spec fn sprites_shown(self, px: int) -> bool {
        bits::bit8(self.mask, 4) && (px >= 8 || bits::bit8(self.mask, 2))
    }

    /// Sprites are 16 rows tall instead of 8.
    pub open spec fn tall(self) -> bool {
        bits::bit8(self.ctrl, 5)
    }

    /// The pattern table of 8x8 sprites.
    pub open spec fn sprite_base(self) -> int {
        if bits::bit8(self.ctrl, 3) {
            0x1000
        } else {
            0
        }
    }

    /// The sprites that the scanline crosses, in priority order.
    pub open spec fn sprites_hit(self) -> Seq<int> {
        sprite_unit::hits(sprite::sprites_of(self.oam), self.scanline, self.tall(), 64)
    }

    /// The first eight of them.
    pub open spec fn line_sprites(self, cart: CartModel) -> Seq<SpriteUnit> {
        sprite_unit::line_sprites(
            sprite::sprites_of(self.oam),
            self.scanline,
            self.tall(),
            self.sprite_base(),
            cart,
        )
    }

    /// More than eight sprites on the scanline set the overflow flag.
    pub open spec fn overflow_noted(self) -> CoreModel {
        CoreModel {
            status: if self.sprites_hit().len() > 8 {
                bits::with_bit(self.status, 5)
            } else {
                self.status
            },
            ..self
        }
    }
}

/// Bit `n` of a shift register.
pub open spec fn reg_bit(s: u16, n: int) -> int {
    (if (s >> (n as u16)) & 1 == 1 {
        1int
    } else {
        0
    })
}

/// The palette slot of a pixel: an opaque sprite in front wins, then an opaque
/// background, then a sprite behind it; where both are transparent slot 0 shows.
pub open spec fn mixed(bg: (int, int), sp: SpritePixel) -> int {
    if sp.color != 0 && (bg.0 == 0 || !sp.behind) {
        4 * sp.palette + sp.color
    } else if bg.0 != 0 {
        4 * bg.1 + bg.0
    } else {
        0
    }
}

/// The first sprite overlaps the background, anywhere but in the last column.
pub open spec fn zero_hit(bg: (int, int), sp: SpritePixel, px: int) -> bool {
    bg.0 != 0 && sp.color != 0 && sp.zero && px < 255
}

impl View for PpuCore {
    type V = CoreModel;

    open spec fn view(&self) -> CoreModel {
        CoreModel {
            nt_ram: self.nt_ram@,
            palette: self.palette@,
            oam: self.oam@,
            ctrl: self.ctrl,
            mask: self.mask,
            status: self.status,
            oam_addr: self.oam_addr,
            v: self.v,
            t: self.t,
            x: self.x,
            w: self.w,
            read_buf: self.read_buf,
            open_bus: self.open_bus,
            scanline: self.scanline as int,
            dot: self.dot as int,
            frame_count: self.frame_count as int,
            odd_frame: self.odd_frame,
            bg_lo_shift: self.bg_lo_shift,
            bg_hi_shift: self.bg_hi_shift,
            at_lo_shift: self.at_lo_shift,
            at_hi_shift: self.at_hi_shift,
            nt_byte: self.nt_byte,
            at_byte: self.at_byte,
            bg_lo: self.bg_lo,
            bg_hi: self.bg_hi,
            nmi_output: self.nmi_output,
            nmi_occurred: self.nmi_occurred,
            nmi_line: self.nmi_line,
            nmi_delay: self.nmi_delay,
        }
    }
}

/// Everything zero: the state at power-on.
pub open spec fn core_at_power_on() -> CoreModel {
    CoreModel {
        nt_ram: Seq::new(2048, |i: int| 0u8),
        palette: Seq::new(32, |i: int| 0u8),
        oam: Seq::new(256, |i: int| 0u8),
        ctrl: 0,
        mask: 0,
        status: 0,
        oam_addr: 0,
        v: 0,
        t: 0,
        x: 0,
        w: false,
        read_buf: 0,
        open_bus: 0,
        scanline: 0,
        dot: 0,
        frame_count: 0,
        odd_frame: false,
        bg_lo_shift: 0,
        bg_hi_shift: 0,
        at_lo_shift: 0,
        at_hi_shift: 0,
        nt_byte: 0,
        at_byte: 0,
        bg_lo: 0,
        bg_hi: 0,
        nmi_output: false,
        nmi_occurred: false,
        nmi_line: false,
        nmi_delay: 0,
    }
}

proof fn lemma_address(a: u16)
    ensures
        a & 0x3FFF == a % 16384,
        0x2000 <= a < 0x3F00 ==> a & 0x2FFF == 0x2000 + a % 4096,
        a & 7 == a % 8,
        a & 0x1F == a % 32,
        0x2000 | (a & 0x0FFF) == 0x2000 + a % 4096,
{
    assert({
        &&& a & 0x3FFF == a % 16384
        &&& 0x2000 <= a < 0x3F00 ==> a & 0x2FFF == 0x2000 + a % 4096
        &&& a & 7 == a % 8
        &&& a & 0x1F == a % 32
        &&& 0x2000 | (a & 0x0FFF) == 0x2000 + a % 4096
    }) by (bit_vector);
}

proof fn lemma_attribute(v: u16, b: u8)
    ensures
        0x23C0 | (v & 0x0C00) | ((v >> 4) & 0x38) | ((v >> 2) & 7) == attribute_address(v),
        ((v >> 4) & 4) | (v & 2) == attribute_shift(v),
        attribute_shift(v) <= 6,
        (b >> ((((v >> 4) & 4) | (v & 2)) as u8)) & 3 == b as int / bits::weight(
            attribute_shift(v),
        ) % 4,
{
    assert({
        &&& 0x23C0 | (v & 0x0C00) | ((v >> 4) & 0x38) | ((v >> 2) & 7) == 0x23C0 + v / 1024 % 4 * 1024
            + v / 32 % 32 / 4 * 8 + v % 32 / 4
        &&& ((v >> 4) & 4) | (v & 2) == v / 32 % 32 / 2 % 2 * 4 + v % 32 / 2 % 2 * 2
    }) by (bit_vector);
    let s = (((v >> 4) & 4) | (v & 2)) as u8;
    assert(s == 0 || s == 2 || s == 4 || s == 6);
    assert({
        &&& s == 0 ==> (b >> s) & 3 == b % 4
        &&& s == 2 ==> (b >> s) & 3 == b / 4 % 4
        &&& s == 4 ==> (b >> s) & 3 == b / 16 % 4
        &&& s == 6 ==> (b >> s) & 3 == b / 64 % 4
    }) by (bit_vector);
}

proof fn lemma_next_x(v: u16)
    ensures
        v & 0x001F == coarse_x(v),
        coarse_x(v) == 31 ==> (v & !0x001F) ^ 0x0400 == next_x(v),
{
    assert({
        &&& v & 0x001F == v % 32
        &&& v % 32 == 31 && v / 1024 % 2 == 0 ==> (v & !0x001F) ^ 0x0400 == v - 31 + 1024
        &&& v % 32 == 31 && v / 1024 % 2 == 1 ==> (v & !0x001F) ^ 0x0400 == v - 31 - 1024
    }) by (bit_vector);
}

proof fn lemma_next_y(v: u16)
    ensures
        ((v & 0x7000) != 0x7000) == (fine_y(v) < 7),
        fine_y(v) < 7 ==> v + 4096 <= 65535,
        fine_y(v) == 7 ==> {
            let u = v & !0x7000;
            let y = (u & 0x03E0) >> 5;
            &&& y == coarse_y(v)
            &&& y == 29 ==> ((u ^ 0x0800) & !0x03E0) | (0u16 << 5) == flip_y(
                v - 7 * 4096 - 29 * 32,
            )
            &&& y == 31 ==> (u & !0x03E0) | (0u16 << 5) == v - 7 * 4096 - 31 * 32
            &&& y != 29 && y != 31 ==> (u & !0x03E0) | (((y + 1) as u16) << 5) == v - 7 * 4096 + 32
        },
{
    assert(((v & 0x7000) != 0x7000) == (v / 4096 % 8 < 7)) by (bit_vector);
    assert(v / 4096 % 8 < 7 ==> v + 4096 <= 65535) by (bit_vector);
    let u = v & !0x7000;
    let y = (u & 0x03E0) >> 5;
    assert(y == v / 32 % 32 && y < 32) by (bit_vector)
        requires
            u == v & !0x7000,
            y == (u & 0x03E0) >> 5,
    ;
    let y1 = (y + 1) as u16;
    if fine_y(v) == 7 {
        assert({
            &&& y == 29 && v / 2048 % 2 == 0 ==> ((u ^ 0x0800) & !0x03E0) | (0u16 << 5) == v - 29600
                + 2048
            &&& y == 29 && v / 2048 % 2 == 1 ==> ((u ^ 0x0800) & !0x03E0) | (0u16 << 5) == v - 29600
                - 2048
            &&& y == 31 ==> (u & !0x03E0) | (0u16 << 5) == v - 29664
            &&& y != 31 ==> (u & !0x03E0) | (y1 << 5) == v - 28672 + 32
        }) by (bit_vector)
            requires
                u == v & !0x7000,
                y == (u & 0x03E0) >> 5,
                y < 32,
                y1 == y + 1,
                v / 4096 % 8 == 7,
        ;
    }
}

proof fn lemma_copy(v: u16, t: u16)
    ensures
        (v & 0xFBE0) | (t & 0x041F) == copied_x(v, t),
        (v & 0x841F) | (t & 0x7BE0) == copied_y(v, t),
{
    assert({
        &&& (v & 0xFBE0) | (t & 0x041F) == v - v % 32 - v / 1024 % 2 * 1024 + t % 32 + t / 1024 % 2
            * 1024
        &&& (v & 0x841F) | (t & 0x7BE0) == v - v / 32 % 32 * 32 - v / 2048 % 2 * 2048 - v / 4096 % 8
            * 4096 + t / 32 % 32 * 32 + t / 2048 % 2 * 2048 + t / 4096 % 8 * 4096
    }) by (bit_vector);
}

proof fn lemma_scroll_writes(t: u16, val: u8)
    ensures
        (t & 0xF3FF) | ((val as u16 & 3) << 10) == with_nametable(t, val as int % 4),
        (t & 0xFFE0) | ((val as u16) >> 3) == with_coarse_x(t, val as int / 8),
        (t & 0x8C1F) | ((val as u16 & 7) << 12) | ((val as u16 >> 3) << 5) == with_y(
            t,
            val as int / 8,
            val as int % 8,
        ),
        (t & 0x00FF) | ((val as u16 & 0x3F) << 8) == t % 256 + val % 64 * 256,
        (t & 0xFF00) | val as u16 == t - t % 256 + val,
{
    assert({
        &&& (t & 0xF3FF) | ((val as u16 & 3) << 10) == t - t / 1024 % 4 * 1024 + val % 4 * 1024
        &&& (t & 0xFFE0) | ((val as u16) >> 3) == t - t % 32 + val / 8
        &&& (t & 0x8C1F) | ((val as u16 & 7) << 12) | ((val as u16 >> 3) << 5) == t - t / 32 % 32 * 32
            - t / 4096 % 8 * 4096 + val / 8 * 32 + val % 8 * 4096
        &&& (t & 0x00FF) | ((val as u16 & 0x3F) << 8) == t % 256 + val % 64 * 256
        &&& (t & 0xFF00) | val as u16 == t - t % 256 + val
    }) by (bit_vector);
}

proof fn lemma_registers(s: u16, b: u8)
    ensures
        s << 1 == shifted(s),
        (s & 0xFF00) | b as u16 == loaded(s, b),
        (s >> 12) & 7 == fine_y(s),
{
    assert({
        &&& s << 1 == 2 * s % 65536
        &&& (s & 0xFF00) | b as u16 == s - s % 256 + b
        &&& (s >> 12) & 7 == s / 4096 % 8
    }) by (bit_vector);
}

proof fn lemma_status(status: u8, bus: u8)
    ensures
        (status & 0xE0) | (bus & 0x1F) == status / 32 * 32 + bus % 32,
        (status & 0x18 != 0) == (bits::bit8(status, 3) || bits::bit8(status, 4)),
{
    assert({
        &&& (status & 0xE0) | (bus & 0x1F) == status / 32 * 32 + bus % 32
        &&& (status & 0x18 != 0) == (status / 8 % 2 == 1 || status / 16 % 2 == 1)
    }) by (bit_vector);
}

impl PpuCore {
    pub open spec fn wf(&self) -> bool {
        self@.wf()
    }

    pub fn new() -> (core: PpuCore)
        ensures
            core@ == core_at_power_on(),
    {
        PpuCore {
            nt_ram: [0;2048],
            palette: [0;32],
            oam: [0;256],
            ctrl: 0,
            mask: 0,
            status: 0,
            oam_addr: 0,
            v: 0,
            t: 0,
            x: 0,
            w: false,
            read_buf: 0,
            open_bus: 0,
            scanline: 0,
            dot: 0,
            frame_count: 0,
            odd_frame: false,
            bg_lo_shift: 0,
            bg_hi_shift: 0,
            at_lo_shift: 0,
            at_hi_shift: 0,
            nt_byte: 0,
            at_byte: 0,
            bg_lo: 0,
            bg_hi: 0,
            nmi_output: false,
            nmi_occurred: false,
            nmi_line: false,
            nmi_delay: 0,
        }
    }

    /// Reads one of the eight registers, which repeat through $3FFF.
    pub fn read_register(&mut self, addr: u16, cart: &Cartridge) -> (val: u8)
        requires
            old(self).wf(),
        ensures
            final(self).wf(),
            val == old(self)@.register_value(addr, cart@),
            final(self)@ == old(self)@.register_read(addr, cart@),
    {
        proof {
            lemma_address(addr);
            lemma_address(self.v);
            lemma_status(self.status, self.open_bus);
            bits::lemma_set_bits(self.status);
        }
        let reg: u16 = addr & 7;
        if reg == 2 {
            let val: u8 = (self.status & 0xE0) | (self.open_bus & 0x1F);
            self.nmi_occurred = false;
            self.status = self.status & !0x80;
            self.nmi_change();
            self.w = false;
            self.open_bus = val;
            val
        } else if reg == 4 {
            let val: u8 = self.oam[self.oam_addr as usize];
            self.open_bus = val;
            val
        } else if reg == 7 {
            let fresh: u8 = self.vram_read(self.v, cart);
            let mut val: u8 = fresh;
            if self.v & 0x3FFF < 0x3F00 {
                val = self.read_buf;
                self.read_buf = fresh;
            } else {
                self.read_buf = self.vram_read(self.v - 0x1000, cart);
            }
            self.move_address();
            self.open_bus = val;
            val
        } else {
            self.open_bus
        }
    }

    /// Writes one of the eight registers.
    pub fn write_register(&mut self, addr: u16, val: u8, cart: &mut Cartridge)
        requires
            old(self).wf(),
            old(cart).wf(),
        ensures
            final(self).wf(),
            final(cart).wf(),
            final(self)@ == old(self)@.register_written(addr, val, old(cart)@),
            final(cart)@ == old(self)@.cart_written(addr, val, old(cart)@),
    {
        proof {
            lemma_address(addr);
            bits::lemma_bit8(val);
            bits::lemma_set_bits(val);
            lemma_scroll_writes(self.t, val);
        }
        self.open_bus = val;
        let reg: u16 = addr & 7;
        if reg == 0 {
            self.ctrl = val;
            self.nmi_output = val & 0x80 != 0;
            self.nmi_change();
            self.t = (self.t & 0xF3FF) | ((val as u16 & 3) << 10);
        } else if reg == 1 {
            self.mask = val;
        } else if reg == 3 {
            self.oam_addr = val;
        } else if reg == 4 {
            self.oam[self.oam_addr as usize] = val;
            self.oam_addr = self.oam_addr.wrapping_add(1);
        } else if reg == 5 {
            if !self.w {
                self.t = (self.t & 0xFFE0) | ((val as u16) >> 3);
                self.x = val & 7;
            } else {
                self.t = (self.t & 0x8C1F) | ((val as u16 & 7) << 12) | ((val as u16 >> 3) << 5);
            }
            self.w = !self.w;
        } else if reg == 6 {
            if !self.w {
                self.t = (self.t & 0x00FF) | ((val as u16 & 0x3F) << 8);
            } else {
                self.t = (self.t & 0xFF00) | val as u16;
                self.v = self.t;
            }
            self.w = !self.w;
        } else if reg == 7 {
            self.vram_write(val, cart);
            self.move_address();
        }
    }

    /// Copies 256 bytes into sprite memory, starting at the sprite address.
    pub fn write_oam_dma(&mut self, data: &[u8; 256])
        ensures
            final(self)@ == old(self)@.oam_filled(data@),
    {
        let start: u8 = self.oam_addr;
        let mut i: usize = 0;
        while i < 256
            invariant
                i <= 256,
                start == old(self).oam_addr,
                self.oam_addr == (start + i) % 256,
                self@ == (CoreModel { oam: self.oam@, oam_addr: self.oam_addr, ..old(self)@ }),
                forall|j: int|
                    0 <= j < 256 && (j - start) % 256 < i ==> self.oam@[j] == data@[(j - start)
                        % 256],
            decreases 256 - i,
        {
            self.oam[self.oam_addr as usize] = data[i];
            self.oam_addr = self.oam_addr.wrapping_add(1);
            i = i + 1;
        }
    }

    /// The byte at a video address.
    fn vram_read(&self, addr: u16, cart: &Cartridge) -> (val: u8)
        requires
            self.wf(),
        ensures
            val == self@.vram(addr as int, cart@),
    {
        let a: u16 = addr & 0x3FFF;
        proof {
            lemma_address(addr);
            lemma_address(a);
        }
        if a < 0x2000 {
            cart.read_chr(a)
        } else if a < 0x3F00 {
            let idx: usize = cart.mirror_nt(a & 0x2FFF);
            self.nt_ram[idx]
        } else {
            self.palette[palette_index(a)]
        }
    }

    /// Stores a byte at the current video address.
    fn vram_write(&mut self, val: u8, cart: &mut Cartridge)
        requires
            old(self).wf(),
            old(cart).wf(),
        ensures
            final(self).wf(),
            final(cart).wf(),
            final(self)@ == old(self)@.vram_stored(val, old(cart)@),
            final(cart)@ == old(self)@.cart_stored(val, old(cart)@),
    {
        let a: u16 = self.v & 0x3FFF;
        proof {
            lemma_address(self.v);
            lemma_address(a);
        }
        if a < 0x2000 {
            cart.write_chr(a, val);
        } else if a < 0x3F00 {
            let idx: usize = cart.mirror_nt(a & 0x2FFF);
            self.nt_ram[idx] = val;
        } else {
            self.palette[palette_index(a)] = val;
        }
    }

    fn move_address(&mut self)
        ensures
            final(self)@ == old(self)@.address_moved(),
    {
        proof {
            bits::lemma_bit8(self.ctrl);
        }
        let step: u16 = if self.ctrl & 4 != 0 {
            32
        } else {
            1
        };
        self.v = self.v.wrapping_add(step);
    }

    fn nmi_change(&mut self)
        ensures
            final(self)@ == old(self)@.nmi_updated(),
    {
        let nmi: bool = self.nmi_output && self.nmi_occurred;
        if nmi && !self.nmi_line {
            self.nmi_delay = 15;
        }
        self.nmi_line = nmi;
    }

    /// Background or sprites are shown.
    pub fn rendering_enabled(&self) -> (on: bool)
        ensures
            on == self@.rendering(),
    {
        proof {
            lemma_status(self.mask, 0);
        }
        self.mask & 0x18 != 0
    }

    pub fn fetch_nt_byte(&mut self, cart: &Cartridge)
        ensures
            final(self)@ == old(self)@.tile_fetched(cart@),
    {
        proof {
            lemma_address(self.v);
        }
        let idx: usize = cart.mirror_nt(0x2000 | (self.v & 0x0FFF));
        self.nt_byte = self.nt_ram[idx];
    }

    pub fn fetch_at_byte(&mut self, cart: &Cartridge)
        ensures
            final(self)@ == old(self)@.attribute_fetched(cart@),
    {
        let v: u16 = self.v;
        proof {
            lemma_attribute(v, 0);
        }
        let addr: u16 = 0x23C0 | (v & 0x0C00) | ((v >> 4) & 0x38) | ((v >> 2) & 7);
        let shift: u8 = (((v >> 4) & 4) | (v & 2)) as u8;
        let idx: usize = cart.mirror_nt(addr);
        let b: u8 = self.nt_ram[idx];
        proof {
            lemma_attribute(v, b);
        }
        self.at_byte = (b >> shift) & 3;
    }

    /// Where the current pixel row of the fetched tile begins.
    fn tile_address(&self) -> (addr: u16)
        ensures
            addr == self@.pattern_address(),
            addr < 0x2000,
    {
        proof {
            lemma_registers(self.v, 0);
            bits::lemma_bit8(self.ctrl);
        }
        let fine: u16 = (self.v >> 12) & 7;
        let base: u16 = if self.ctrl & 0x10 != 0 {
            0x1000
        } else {
            0
        };
        base + (self.nt_byte as u16) * 16 + fine
    }

    pub fn fetch_tile_lo(&mut self, cart: &Cartridge)
        ensures
            final(self)@ == old(self)@.low_fetched(cart@),
    {
        let addr: u16 = self.tile_address();
        self.bg_lo = cart.read_chr(addr);
    }

    pub fn fetch_tile_hi(&mut self, cart: &Cartridge)
        ensures
            final(self)@ == old(self)@.high_fetched(cart@),
    {
        let addr: u16 = self.tile_address();
        self.bg_hi = cart.read_chr(addr + 8);
    }

    pub fn load_bg_shifters(&mut self)
        ensures
            final(self)@ == old(self)@.tile_loaded(),
    {
        proof {
            bits::lemma_bit8(self.at_byte);
            lemma_registers(self.bg_lo_shift, self.bg_lo);
            lemma_registers(self.bg_hi_shift, self.bg_hi);
            lemma_registers(self.at_lo_shift, 0xFF);
            lemma_registers(self.at_lo_shift, 0x00);
            lemma_registers(self.at_hi_shift, 0xFF);
            lemma_registers(self.at_hi_shift, 0x00);
        }
        let at_lo: u8 = if self.at_byte & 1 != 0 {
            0xFF
        } else {
            0x00
        };
        let at_hi: u8 = if self.at_byte & 2 != 0 {
            0xFF
        } else {
            0x00
        };
        self.bg_lo_shift = (self.bg_lo_shift & 0xFF00) | self.bg_lo as u16;
        self.bg_hi_shift = (self.bg_hi_shift & 0xFF00) | self.bg_hi as u16;
        self.at_lo_shift = (self.at_lo_shift & 0xFF00) | at_lo as u16;
        self.at_hi_shift = (self.at_hi_shift & 0xFF00) | at_hi as u16;
    }

    pub fn shift_bg(&mut self)
        ensures
            final(self)@ == old(self)@.pixels_shifted(),
    {
        proof {
            lemma_registers(self.bg_lo_shift, 0);
            lemma_registers(self.bg_hi_shift, 0);
            lemma_registers(self.at_lo_shift, 0);
            lemma_registers(self.at_hi_shift, 0);
        }
        self.bg_lo_shift = self.bg_lo_shift << 1;
        self.bg_hi_shift = self.bg_hi_shift << 1;
        self.at_lo_shift = self.at_lo_shift << 1;
        self.at_hi_shift = self.at_hi_shift << 1;
    }

    pub fn increment_x(&mut self)
        ensures
            final(self)@ == old(self)@.moved_to(next_x(old(self).v)),
    {
        proof {
            lemma_next_x(self.v);
        }
        if self.v & 0x001F == 31 {
            self.v = (self.v & !0x001F) ^ 0x0400;
        } else {
            self.v = self.v + 1;
        }
    }

    pub fn increment_y(&mut self)
        ensures
            final(self)@ == old(self)@.moved_to(next_y(old(self).v)),
    {
        proof {
            lemma_next_y(self.v);
        }
        if (self.v & 0x7000) != 0x7000 {
            self.v = self.v + 0x1000;
        } else {
            let mut u: u16 = self.v & !0x7000;
            let mut y: u16 = (u & 0x03E0) >> 5;
            if y == 29 {
                y = 0;
                u = u ^ 0x0800;
            } else if y == 31 {
                y = 0;
            } else {
                y = y + 1;
            }
            self.v = (u & !0x03E0) | (y << 5);
        }
    }

    pub fn copy_x(&mut self)
        ensures
            final(self)@ == old(self)@.moved_to(copied_x(old(self).v, old(self).t)),
    {
        proof {
            lemma_copy(self.v, self.t);
        }
        self.v = (self.v & 0xFBE0) | (self.t & 0x041F);
    }

    pub fn copy_y(&mut self)
        ensures
            final(self)@ == old(self)@.moved_to(copied_y(old(self).v, old(self).t)),
    {
        proof {
            lemma_copy(self.v, self.t);
        }
        self.v = (self.v & 0x841F) | (self.t & 0x7BE0);
    }

    /// One dot of the background pipeline.
    fn fetch_cycle(&mut self, cart: &Cartridge)
        ensures
            final(self)@ == old(self)@.fetch_cycle(cart@),
    {
        self.shift_bg();
        let phase: u32 = self.dot % 8;
        if phase == 1 {
            self.fetch_nt_byte(cart);
        } else if phase == 3 {
            self.fetch_at_byte(cart);
        } else if phase == 5 {
            self.fetch_tile_lo(cart);
        } else if phase == 7 {
            self.fetch_tile_hi(cart);
            self.load_bg_shifters();
            self.increment_x();
        }
    }

    /// Everything that one dot does to the background while rendering is on.
    pub fn background_cycle(&mut self, cart: &Cartridge)
        requires
            old(self).wf(),
        ensures
            final(self).wf(),
            final(self)@ == old(self)@.background_cycle(cart@),
    {
        let pre_line: bool = self.scanline == 261;
        let render_line: bool = self.scanline < 240 || pre_line;
        if render_line && ((1 <= self.dot && self.dot <= 256) || (321 <= self.dot && self.dot
            <= 336)) {
            self.fetch_cycle(cart);
        }
        if render_line && self.dot == 256 {
            self.increment_y();
        } else if render_line && self.dot == 257 {
            self.copy_x();
        } else if pre_line && 280 <= self.dot && self.dot <= 304 {
            self.copy_y();
        }
    }

    /// Moves the interrupt signal one dot; true when it reaches the processor.
    pub fn nmi_countdown(&mut self) -> (arrived: bool)
        ensures
            final(self)@ == old(self)@.countdown(),
            arrived == old(self)@.nmi_arrives(),
    {
        if self.nmi_delay > 0 {
            self.nmi_delay = self.nmi_delay - 1;
            self.nmi_delay == 0 && self.nmi_output && self.nmi_occurred
        } else {
            false
        }
    }

    /// Vertical blanking begins.
    pub fn begin_vblank(&mut self)
        ensures
            final(self)@ == old(self)@.vblank_begun(),
    {
        proof {
            bits::lemma_set_bits(self.status);
        }
        self.status = self.status | 0x80;
        self.nmi_occurred = true;
        self.nmi_change();
    }

    /// Vertical blanking ends.
    pub fn end_vblank(&mut self)
        ensures
            final(self)@ == old(self)@.vblank_ended(),
    {
        proof {
            bits::lemma_set_bits(self.status);
        }
        self.status = self.status & !0xE0;
        self.nmi_occurred = false;
        self.nmi_change();
    }

    pub fn blanking_cycle(&mut self)
        ensures
            final(self)@ == old(self)@.blanking_cycle(),
    {
        if self.scanline == 241 && self.dot == 1 {
            self.begin_vblank();
        } else if self.scanline == 261 && self.dot == 1 {
            self.end_vblank();
        }
    }

    fn begin_frame(&mut self)
        requires
            old(self).frame_count < u64::MAX,
        ensures
            final(self)@ == old(self)@.frame_begun(),
    {
        self.dot = 0;
        self.scanline = 0;
        self.odd_frame = !self.odd_frame;
        self.frame_count = self.frame_count + 1;
    }

    /// To the start of the next scanline.
    pub fn begin_line(&mut self)
        requires
            old(self).wf(),
            old(self).frame_count < u64::MAX,
        ensures
            final(self).wf(),
            final(self)@ == old(self)@.line_begun(),
    {
        if self.scanline == 261 {
            self.begin_frame();
        } else {
            self.dot = 0;
            self.scanline = self.scanline + 1;
        }
    }

    /// To the next dot.
    pub fn advance(&mut self)
        requires
            old(self).wf(),
            old(self).frame_count < u64::MAX,
        ensures
            final(self).wf(),
            final(self)@ == old(self)@.advanced(),
    {
        let rendering: bool = self.rendering_enabled();
        if rendering && self.odd_frame && self.scanline == 261 && self.dot == 339 {
            self.begin_frame();
        } else if self.dot == 340 {
            self.begin_line();
        } else {
            self.dot = self.dot + 1;
        }
    }

    /// The background's colour and palette in column `px`.
    fn background(&self, px: usize) -> (bg: (u8, u8))
        requires
            self.wf(),
        ensures
            (bg.0 as int, bg.1 as int) == self@.background_pixel(px as int),
            bg.0 < 4,
            bg.1 < 4,
    {
        proof {
            bits::lemma_bit8(self.mask);
        }
        if self.mask & 0x08 != 0 && (px >= 8 || self.mask & 0x02 != 0) {
            let bit: u16 = 15 - self.x as u16;
            (
                register_bit(self.bg_lo_shift, bit) + 2 * register_bit(self.bg_hi_shift, bit),
                register_bit(self.at_lo_shift, bit) + 2 * register_bit(self.at_hi_shift, bit),
            )
        } else {
            (0, 0)
        }
    }

    /// Sprites are drawn in column `px`.
    pub fn shows_sprites(&self, px: usize) -> (shown: bool)
        ensures
            shown == self@.sprites_shown(px as int),
    {
        proof {
            bits::lemma_bit8(self.mask);
        }
        self.mask & 0x10 != 0 && (px >= 8 || self.mask & 0x04 != 0)
    }

    /// Combines background and sprite in column `px` and notes a hit of the first
    /// sprite. Returns the palette slot of the pixel.
    pub fn mix(&mut self, sp: SpritePixel, px: usize) -> (slot: usize)
        requires
            old(self).wf(),
            sp.color < 4,
            sp.palette < 8,
        ensures
            final(self).wf(),
            slot == mixed(old(self)@.background_pixel(px as int), sp),
            slot < 32,
            final(self)@ == old(self)@.hit_noted(sp, px as int),
    {
        let bg: (u8, u8) = self.background(px);
        if bg.0 != 0 && sp.color != 0 && sp.zero && px < 255 {
            proof {
                bits::lemma_set_bits(self.status);
            }
            self.status = self.status | 0x40;
        }
        if sp.color != 0 && (bg.0 == 0 || !sp.behind) {
            sp.palette as usize * 4 + sp.color as usize
        } else if bg.0 != 0 {
            bg.1 as usize * 4 + bg.0 as usize
        } else {
            0
        }
    }

    /// Finds the sprites of the scanline.
    pub fn evaluate(&self, list: &SpriteList, cart: &Cartridge) -> (found: LineSprites)
        requires
            self.wf(),
            list@ == sprite::sprites_of(self.oam@),
        ensures
            found.wf(),
            found@ == self@.line_sprites(cart@),
            found.overflow == (self@.sprites_hit().len() > 8),
    {
        proof {
            bits::lemma_bit8(self.ctrl);
        }
        let base: u16 = if self.ctrl & 0x08 != 0 {
            0x1000
        } else {
            0
        };
        proof {
            sprite_unit::lemma_addresses_fit(
                list@,
                self.scanline as int,
                self@.tall(),
                base as int,
            );
        }
        find_sprites(list, self.scanline, self.ctrl & 0x20 != 0, base, cart)
    }
}

/// Bit `n` of a shift register, as 0 or 1.
fn register_bit(s: u16, n: u16) -> (bit: u8)
    requires
        n < 16,
    ensures
        bit == reg_bit(s, n as int),
        bit < 2,
{
    if (s >> n) & 1 == 1 {
        1
    } else {
        0
    }
}

/// The slot of palette RAM at an address.
fn palette_index(addr: u16) -> (slot: usize)
    ensures
        slot == palette_slot(addr as int),
        slot < 32,
{
    let p: usize = (addr % 32) as usize;
    if p == 0x10 || p == 0x14 || p == 0x18 || p == 0x1C {
        p - 0x10
    } else {
        p
    }
}

} // verus!

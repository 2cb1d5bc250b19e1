//! What the picture processor shows: where a video address points, which palette a tile has,
//! how pixels leave the shift registers, and how sprites are chosen and laid over them.

use vstd::prelude::*;
use crate::bits;
use crate::cartridge;
use crate::cartridge::{CartModel, Mirroring};
use crate::contra::ppu::ScanModel;
use crate::contra::sprite;
use crate::contra::sprite::Sprite;
use crate::picture_laws;
use crate::ppu::PpuModel;
use crate::ppu_core;
use crate::ppu_core::CoreModel;
use crate::sprite_unit;
use crate::sprite_unit::{SpritePixel, SpriteUnit};

verus! {

/// A place on the four nametables: the table, the tile's row and column in it, and the pixel
/// row inside the tile.
pub ghost struct Spot {
    pub fine: int,
    pub table: int,
    pub row: int,
    pub column: int,
}

impl Spot {
    pub open spec fn valid(self) -> bool {
        &&& 0 <= self.fine < 8
        &&& 0 <= self.table < 4
        &&& 0 <= self.row < 32
        &&& 0 <= self.column < 32
    }

    /// The video address of the place.
    pub open spec fn address(self) -> u16 {
        (4096 * self.fine + 1024 * self.table + 32 * self.row + self.column) as u16
    }

    /// Where a table's byte `n` lies in video memory.
    pub open spec fn slot(self, mirroring: Mirroring, n: int) -> int {
        match mirroring {
            Mirroring::Vertical => if self.table == 1 || self.table == 3 {
                1024 + n
            } else {
                n
            },
            Mirroring::Horizontal => if self.table >= 2 {
                1024 + n
            } else {
                n
            },
        }
    }

    /// The lower attribute bit that holds for the tile: the attribute byte covers four by
    /// four tiles, and two bits each belong to top left, top right, bottom left and bottom
    /// right.
    pub open spec fn quadrant(self) -> int {
        if self.row % 4 < 2 {
            if self.column % 4 < 2 {
                0
            } else {
                2
            }
        } else {
            if self.column % 4 < 2 {
                4
            } else {
                6
            }
        }
    }
}

/// The parts of a video address.
#[verifier::rlimit(50)]
pub proof fn address_parts(s: Spot)
    requires
        s.valid(),
    ensures
        ppu_core::coarse_x(s.address()) == s.column,
        ppu_core::coarse_y(s.address()) == s.row,
        ppu_core::nametable(s.address()) == s.table,
        ppu_core::nametable_x(s.address()) == s.table % 2,
        ppu_core::nametable_y(s.address()) == s.table / 2,
        ppu_core::fine_y(s.address()) == s.fine,
        s.address() as int % 4096 == 1024 * s.table + 32 * s.row + s.column,
{
    let v = s.address() as int;
    assert(v / 32 == 128 * s.fine + 32 * s.table + s.row);
    assert(v / 1024 == 4 * s.fine + s.table);
    assert(v / 2048 == 2 * s.fine + s.table / 2);
    assert(v / 4096 == s.fine);
}

/// The tile that is fetched for a place is the one that its nametable holds there; the
/// palette comes from the two bits of the attribute byte that belong to its quadrant.
#[verifier::rlimit(50)]
pub proof fn fetches_for_place(core: CoreModel, cart: CartModel, s: Spot)
    requires
        core.wf(),
        s.valid(),
        core.v == s.address(),
    ensures
        core.tile_fetched(cart).nt_byte == core.nt_ram[s.slot(
            cart.mirroring,
            32 * s.row + s.column,
        )],
        ({
            let attr = core.nt_ram[s.slot(cart.mirroring, 960 + s.row / 4 * 8 + s.column / 4)];
            core.attribute_fetched(cart).at_byte == picture_laws::two_bits(
                bits::bit8(attr, s.quadrant()),
                bits::bit8(attr, s.quadrant() + 1),
            )
        }),
{
    address_parts(s);
    let attr = core.nt_ram[s.slot(cart.mirroring, 960 + s.row / 4 * 8 + s.column / 4)];
    picture_laws::bit_pairs(attr);
    lemma_slots(s, cart.mirroring);
    assert(s.row / 2 % 2 == (if s.row % 4 < 2 {
        0int
    } else {
        1
    }));
    assert(s.column / 2 % 2 == (if s.column % 4 < 2 {
        0int
    } else {
        1
    }));
}

#[verifier::rlimit(50)]
proof fn lemma_slots(s: Spot, mirroring: Mirroring)
    requires
        s.valid(),
    ensures
        cartridge::nametable_slot(
            mirroring,
            (0x2000 + 1024 * s.table + 32 * s.row + s.column) as u16,
        ) == s.slot(mirroring, 32 * s.row + s.column),
        cartridge::nametable_slot(
            mirroring,
            (0x23C0 + s.table * 1024 + s.row / 4 * 8 + s.column / 4) as u16,
        ) == s.slot(mirroring, 960 + s.row / 4 * 8 + s.column / 4),
{
    let a = 1024 * s.table + 32 * s.row + s.column;
    let b = 0x3C0 + s.table * 1024 + s.row / 4 * 8 + s.column / 4;
    assert(a / 1024 == s.table && a % 1024 == 32 * s.row + s.column);
    assert(b / 1024 == s.table && b % 1024 == 960 + s.row / 4 * 8 + s.column / 4);
}

/// The pattern of the fetched tile: sixteen bytes a tile, from the table that bit 4 of the
/// control register chooses; the row's low bits lie eight bytes before its high bits.
pub proof fn patterns_for_place(core: CoreModel, cart: CartModel, s: Spot)
    requires
        s.valid(),
        core.v == s.address(),
    ensures
        ({
            let at = 16 * core.nt_byte + s.fine + (if bits::bit8(core.ctrl, 4) {
                4096int
            } else {
                0
            });
            &&& core.low_fetched(cart).bg_lo == cart.chr[at]
            &&& core.high_fetched(cart).bg_hi == cart.chr[at + 8]
        }),
{
    address_parts(s);
}

/// A shift register's bits: loading replaces the lower eight, shifting moves all of them up
/// by one.
pub proof fn shift_registers(r: u16, low: u8, n: u16)
    requires
        n < 15,
    ensures
        ppu_core::reg_bit(ppu_core::shifted(r), n + 1) == ppu_core::reg_bit(r, n as int),
        n < 8 ==> (ppu_core::reg_bit(ppu_core::loaded(r, low), n as int) == 1 <==> bits::bit8(
            low,
            n as int,
        )),
        n >= 8 ==> ppu_core::reg_bit(ppu_core::loaded(r, low), n as int) == ppu_core::reg_bit(
            r,
            n as int,
        ),
{
    let up = ppu_core::shifted(r);
    let put = ppu_core::loaded(r, low);
    let n1 = (n + 1) as u16;
    let b = low as u16;
    let base = r & 0xFF00;
    bits::lemma_word_parts(r);
    assert(r << 1 == 2 * r % 65536) by (bit_vector);
    assert({
        &&& (up >> n1) & 1 == (r >> n) & 1
        &&& n < 8 ==> (put >> n) & 1 == (b >> n) & 1
        &&& n >= 8 ==> (put >> n) & 1 == (r >> n) & 1
        &&& n == 0 ==> (b >> n) & 1 == b % 2
        &&& n == 1 ==> (b >> n) & 1 == b / 2 % 2
        &&& n == 2 ==> (b >> n) & 1 == b / 4 % 2
        &&& n == 3 ==> (b >> n) & 1 == b / 8 % 2
        &&& n == 4 ==> (b >> n) & 1 == b / 16 % 2
        &&& n == 5 ==> (b >> n) & 1 == b / 32 % 2
        &&& n == 6 ==> (b >> n) & 1 == b / 64 % 2
        &&& n == 7 ==> (b >> n) & 1 == b / 128 % 2
    }) by (bit_vector)
        requires
            up == r << 1,
            base == r & 0xFF00,
            put == base + b,
            b < 256,
            n < 15,
            n1 == n + 1,
    ;
    bits::bit_weights(low);
    if n == 0 {
    } else if n == 1 {
    } else if n == 2 {
    } else if n == 3 {
    } else if n == 4 {
    } else if n == 5 {
    } else if n == 6 {
    } else if n == 7 {
    }
}

/// The loaded tile puts its pattern into the lower halves of the registers, and its palette
/// eight times.
pub proof fn tiles_enter_registers(core: CoreModel, n: u16)
    requires
        n < 8,
    ensures
        ({
            let after = core.tile_loaded();
            &&& ppu_core::reg_bit(after.bg_lo_shift, n as int) == 1 <==> bits::bit8(
                core.bg_lo,
                n as int,
            )
            &&& ppu_core::reg_bit(after.bg_hi_shift, n as int) == 1 <==> bits::bit8(
                core.bg_hi,
                n as int,
            )
            &&& ppu_core::reg_bit(after.at_lo_shift, n as int) == 1 <==> bits::bit8(core.at_byte, 0)
            &&& ppu_core::reg_bit(after.at_hi_shift, n as int) == 1 <==> bits::bit8(core.at_byte, 1)
        }),
{
    shift_registers(core.bg_lo_shift, core.bg_lo, n);
    shift_registers(core.bg_hi_shift, core.bg_hi, n);
    shift_registers(core.at_lo_shift, ppu_core::spread(bits::bit8(core.at_byte, 0)), n);
    shift_registers(core.at_hi_shift, ppu_core::spread(bits::bit8(core.at_byte, 1)), n);
    bits::bit_weights(255);
    bits::bit_weights(0);
    if n == 0 {
    } else if n == 1 {
    } else if n == 2 {
    } else if n == 3 {
    } else if n == 4 {
    } else if n == 5 {
    } else if n == 6 {
    } else {
        assert(n == 7);
    }
}

/// The background's pixel leaves the registers at the top, as far below it as the fine
/// scroll says; it is off unless bit 3 of the mask is set, and in the leftmost eight columns
/// bit 1 too.
pub proof fn background_pixels(core: CoreModel, px: int)
    requires
        core.wf(),
    ensures
        ({
            let on = bits::bit8(core.mask, 3) && (px >= 8 || bits::bit8(core.mask, 1));
            let bit = 15 - core.x;
            let (color, palette) = core.background_pixel(px);
            &&& !on ==> color == 0
            &&& on ==> color == ppu_core::reg_bit(core.bg_lo_shift, bit) + 2 * ppu_core::reg_bit(
                core.bg_hi_shift,
                bit,
            )
            &&& on ==> palette == ppu_core::reg_bit(core.at_lo_shift, bit) + 2 * ppu_core::reg_bit(
                core.at_hi_shift,
                bit,
            )
        }),
{
}

/// What a pixel shows: nothing of either gives the first palette entry; alone, each shows;
/// together the sprite shows unless it lies behind the background.
pub proof fn pixels_mix(bg: (int, int), sp: SpritePixel)
    requires
        bg.0 >= 0,
    ensures
        ({
            let slot = ppu_core::mixed(bg, sp);
            &&& bg.0 == 0 && sp.color == 0 ==> slot == 0
            &&& bg.0 > 0 && sp.color == 0 ==> slot == 4 * bg.1 + bg.0
            &&& bg.0 == 0 && sp.color > 0 ==> slot == 4 * sp.palette + sp.color
            &&& bg.0 > 0 && sp.color > 0 && sp.behind ==> slot == 4 * bg.1 + bg.0
            &&& bg.0 > 0 && sp.color > 0 && !sp.behind ==> slot == 4 * sp.palette + sp.color
        }),
{
}

/// Bit 6 of the status is set when an opaque pixel of the first sprite meets an opaque pixel
/// of the background left of the last column; nothing else clears or sets it there.
pub proof fn first_sprite_hits(core: CoreModel, sp: SpritePixel, px: int)
    ensures
        ({
            let after = core.hit_noted(sp, px);
            let meets = core.background_pixel(px).0 != 0 && sp.color != 0 && sp.zero && px < 255;
            &&& bits::bit8(after.status, 6) <==> bits::bit8(core.status, 6) || meets
            &&& !meets ==> after == core
            &&& after == (CoreModel { status: after.status, ..core })
        }),
{
    bits::bit_weights(core.status);
    bits::bit_weights(bits::with_bit(core.status, 6));
}

/// A sprite as its four bytes in sprite memory tell: row, tile, attributes, column. Of the
/// attributes, bits 0 and 1 are the palette, bit 5 puts it behind the background, bit 6
/// mirrors it left to right and bit 7 top to bottom.
pub proof fn sprite_bytes(oam: Seq<u8>, k: int)
    requires
        oam.len() == 256,
        0 <= k < 64,
    ensures
        ({
            let sp = sprite::sprites_of(oam)[k];
            let attr = oam[4 * k + 2];
            &&& sp.y == oam[4 * k]
            &&& sp.tile == oam[4 * k + 1]
            &&& sp.x == oam[4 * k + 3]
            &&& sp.palette == picture_laws::two_bits(bits::bit8(attr, 0), bits::bit8(attr, 1))
            &&& sp.behind_bg <==> bits::bit8(attr, 5)
            &&& sp.flip_h <==> bits::bit8(attr, 6)
            &&& sp.flip_v <==> bits::bit8(attr, 7)
        }),
{
    picture_laws::bit_pairs(oam[4 * k + 2]);
}

/// The sprites of a scanline are those whose rows it crosses, in the order of sprite memory.
#[verifier::rlimit(50)]
pub proof fn crossed_sprites(list: Seq<Sprite>, scanline: int, tall: bool, n: int)
    requires
        0 <= n <= list.len(),
    ensures
        ({
            let found = sprite_unit::hits(list, scanline, tall, n);
            &&& forall|a: int|
                0 <= a < found.len() ==> {
                    let sp = list[#[trigger] found[a]];
                    &&& 0 <= found[a] < n
                    &&& sp.y <= scanline < sp.y + (if tall {
                        16int
                    } else {
                        8
                    })
                }
            &&& forall|a: int, b: int|
                0 <= a < b < found.len() ==> #[trigger] found[a] < #[trigger] found[b]
            &&& forall|k: int|
                0 <= k < n && (#[trigger] list[k]).y <= scanline < list[k].y + (if tall {
                    16int
                } else {
                    8
                }) ==> found.contains(k)
        }),
    decreases n,
{
    if n > 0 {
        crossed_sprites(list, scanline, tall, n - 1);
        let before = sprite_unit::hits(list, scanline, tall, n - 1);
        let found = sprite_unit::hits(list, scanline, tall, n);
        if sprite_unit::crosses(list[n - 1], scanline, tall) {
            assert(found == before.push(n - 1));
            assert(found[before.len() as int] == n - 1);
        }
        assert forall|k: int|
            0 <= k < n && (#[trigger] list[k]).y <= scanline < list[k].y + (if tall {
                16int
            } else {
                8
            }) implies found.contains(k) by {
            if k < n - 1 {
                assert(before.contains(k));
                let a = before.index_of(k);
                assert(found[a] == k);
            }
        }
    }
}

/// The pixel that a sprite on a scanline shows `dx` columns from its left edge: its pattern
/// row, from the left or, mirrored, from the right.
#[verifier::rlimit(60)]
#[verifier::spinoff_prover]
pub proof fn sprite_pixels(
    list: Seq<Sprite>,
    i: int,
    scanline: int,
    tall: bool,
    base: int,
    cart: CartModel,
    dx: int,
)
    requires
        0 <= i < 64,
        sprite_unit::crosses(list[i], scanline, tall),
        0 <= dx < 8,
    ensures
        ({
            let sp = list[i];
            let unit = sprite_unit::unit_of(list, i, scanline, tall, base, cart);
            let height: int = if tall {
                16
            } else {
                8
            };
            let down = if sp.flip_v {
                height - 1 - (scanline - sp.y)
            } else {
                scanline - sp.y
            };
            let at = if tall {
                (if sp.tile % 2 == 1 {
                    4096int
                } else {
                    0
                }) + 16 * (sp.tile - sp.tile % 2) + (if down < 8 {
                    down
                } else {
                    down + 8
                })
            } else {
                base + 16 * sp.tile + down
            };
            let bit = if sp.flip_h {
                dx
            } else {
                7 - dx
            };
            &&& unit.color(sp.x + dx) == picture_laws::two_bits(
                bits::bit8(cart.chr_at(at), bit),
                bits::bit8(cart.chr_at(at + 8), bit),
            )
            &&& unit.x == sp.x
            &&& unit.behind == sp.behind_bg
            &&& unit.index == i
        }),
{
    let sp = list[i];
    let addr = sprite_unit::pattern_address(sp, scanline, tall, base);
    bits::reversed_bits(cart.chr_at(addr), 7 - dx);
    bits::reversed_bits(cart.chr_at(addr + 8), 7 - dx);
}

/// A sprite shows nothing outside its eight columns.
pub proof fn sprites_end(unit: SpriteUnit, px: int)
    requires
        px < unit.x || px >= unit.x + 8,
    ensures
        unit.color(px) == 0,
{
}

/// The frontmost sprite of a column is the first of the scanline's that is opaque there.
pub proof fn front_sprites(units: Seq<SpriteUnit>, px: int, from: int)
    requires
        0 <= from <= units.len(),
    ensures
        match sprite_unit::front_sprite(units, px, from) {
            Some(s) => {
                &&& from <= s < units.len()
                &&& units[s].color(px) != 0
                &&& forall|k: int| from <= k < s ==> (#[trigger] units[k]).color(px) == 0
            },
            None => forall|k: int|
                from <= k < units.len() ==> (#[trigger] units[k]).color(px) == 0,
        },
    decreases units.len() - from,
{
    if from < units.len() {
        front_sprites(units, px, from + 1);
    }
}

/// What the sprites contribute to a column: nothing where bit 4 of the mask is clear, or bit
/// 2 in the leftmost eight columns; else the frontmost sprite's pixel, from the upper four
/// palettes.
pub proof fn sprite_columns(ppu: PpuModel, px: int)
    ensures
        ({
            let on = bits::bit8(ppu.core.mask, 4) && (px >= 8 || bits::bit8(ppu.core.mask, 2));
            let list = sprite::sprites_of(ppu.core.oam);
            let shown = ppu.sprite_pixel(px);
            &&& !on ==> shown.color == 0
            &&& on ==> match sprite_unit::front_sprite(ppu.sprites, px, 0) {
                Some(s) => {
                    let unit = ppu.sprites[s];
                    &&& shown.color == unit.color(px)
                    &&& shown.behind == unit.behind
                    &&& shown.zero <==> unit.index == 0
                    &&& list[unit.index as int].palette < 4 ==> shown.palette == 4
                        + list[unit.index as int].palette
                },
                None => shown.color == 0,
            }
        }),
{
}

/// The dot that is drawn puts its colour at its column and row, red, green and blue, and
/// leaves the rest of the picture alone.
pub proof fn dots_are_drawn(ppu: PpuModel, i: int)
    requires
        ppu.wf(),
        ppu.core.visible(),
        1 <= ppu.core.dot <= 256,
        0 <= i < 184320,
    ensures
        ({
            let at = 3 * (256 * ppu.core.scanline + ppu.core.dot - 1);
            let color = ppu.pixel_color(ppu.core.dot - 1) as int % 64;
            let shown = ppu.pixel_drawn().framebuffer;
            &&& shown[at] == crate::palette::NES_PAL[color][0]
            &&& shown[at + 1] == crate::palette::NES_PAL[color][1]
            &&& shown[at + 2] == crate::palette::NES_PAL[color][2]
            &&& i < at || i > at + 2 ==> shown[i] == ppu.framebuffer[i]
        }),
{
}

/// More than eight sprites on a scanline raise bit 5 of the status; the first eight show.
pub proof fn overflow(ppu: PpuModel, cart: CartModel)
    ensures
        ({
            let found = ppu.core.sprites_hit();
            let after = ppu.sprites_evaluated(cart);
            &&& bits::bit8(after.core.status, 5) <==> bits::bit8(ppu.core.status, 5) || found.len()
                > 8
            &&& after.sprites.len() == (if found.len() > 8 {
                8
            } else {
                found.len()
            })
            &&& forall|s: int|
                0 <= s < after.sprites.len() ==> #[trigger] after.sprites[s]
                    == sprite_unit::unit_of(
                    sprite::sprites_of(ppu.core.oam),
                    found[s],
                    ppu.core.scanline,
                    bits::bit8(ppu.core.ctrl, 5),
                    if bits::bit8(ppu.core.ctrl, 3) {
                        4096
                    } else {
                        0
                    },
                    cart,
                )
        }),
{
    bits::bit_weights(ppu.core.status);
    bits::bit_weights(bits::with_bit(ppu.core.status, 5));
}

/// $2000: bits 0 and 1 are the nametable to scroll from, bit 2 makes the address step down,
/// bit 7 lets vertical blanking interrupt.
#[verifier::rlimit(50)]
pub proof fn control_register(core: CoreModel, val: u8, cart: CartModel, s: Spot)
    requires
        s.valid(),
        core.t == s.address(),
    ensures
        ({
            let after = core.register_written(0x2000, val, cart);
            let to = Spot { table: picture_laws::two_bits(
                bits::bit8(val, 0),
                bits::bit8(val, 1),
            ), ..s };
            &&& after.ctrl == val
            &&& after.t == to.address()
            &&& after.v == core.v
            &&& after.nmi_output <==> bits::bit8(val, 7)
            &&& after.address_moved().v == core.v.wrapping_add(
                if bits::bit8(val, 2) {
                    32
                } else {
                    1
                },
            )
        }),
{
    address_parts(s);
    picture_laws::bit_pairs(val);
}

/// $2005, written twice: the first byte's upper five bits are the column and its lower three
/// the fine scroll; the second byte's are the row and the row inside it.
#[verifier::rlimit(50)]
pub proof fn scroll_register(core: CoreModel, val: u8, cart: CartModel, s: Spot)
    requires
        s.valid(),
        core.t == s.address(),
    ensures
        ({
            let after = core.register_written(0x2005, val, cart);
            let tile = val as int / 8;
            let rest = val as int % 8;
            &&& !core.w ==> after.t == (Spot { column: tile, ..s }).address() && after.x == rest
            &&& core.w ==> after.t == (Spot { row: tile, fine: rest, ..s }).address() && after.x
                == core.x
            &&& after.w == !core.w
            &&& after.v == core.v
        }),
{
    address_parts(s);
}

/// At the end of a line the column comes back from where scrolling starts, before the first
/// line the row.
#[verifier::rlimit(50)]
pub proof fn scroll_returns(a: Spot, b: Spot)
    requires
        a.valid(),
        b.valid(),
    ensures
        ppu_core::copied_x(a.address(), b.address()) == (Spot {
            column: b.column,
            table: a.table / 2 * 2 + b.table % 2,
            ..a
        }).address(),
        ppu_core::copied_y(a.address(), b.address()) == (Spot {
            row: b.row,
            fine: b.fine,
            table: b.table / 2 * 2 + a.table % 2,
            ..a
        }).address(),
{
    address_parts(a);
    address_parts(b);
}

/// The next tile to the right is in the next column, or in the first column of the table
/// beside.
#[verifier::rlimit(50)]
pub proof fn next_tile(s: Spot)
    requires
        s.valid(),
    ensures
        s.column < 31 ==> ppu_core::next_x(s.address()) == (Spot {
            column: s.column + 1,
            ..s
        }).address(),
        s.column == 31 ==> ppu_core::next_x(s.address()) == (Spot {
            column: 0,
            table: if s.table % 2 == 0 {
                s.table + 1
            } else {
                s.table - 1
            },
            ..s
        }).address(),
{
    address_parts(s);
    address_parts(Spot { column: 0, ..s });
}

/// The next line is the next row of the tile, or the first of the tile below; below row 29
/// comes the table beneath.
#[verifier::rlimit(50)]
pub proof fn next_line(s: Spot)
    requires
        s.valid(),
    ensures
        s.fine < 7 ==> ppu_core::next_y(s.address()) == (Spot { fine: s.fine + 1, ..s }).address(),
        s.fine == 7 && s.row != 29 && s.row != 31 ==> ppu_core::next_y(s.address()) == (Spot {
            fine: 0,
            row: s.row + 1,
            ..s
        }).address(),
        s.fine == 7 && s.row == 29 ==> ppu_core::next_y(s.address()) == (Spot {
            fine: 0,
            row: 0,
            table: if s.table < 2 {
                s.table + 2
            } else {
                s.table - 2
            },
            ..s
        }).address(),
        s.fine == 7 && s.row == 31 ==> ppu_core::next_y(s.address()) == (Spot {
            fine: 0,
            row: 0,
            ..s
        }).address(),
{
    address_parts(s);
    address_parts(Spot { fine: 0, row: 0, ..s });
}

/// $2003 and $2004: a byte goes to the chosen place of sprite memory, which moves on by one.
pub proof fn sprite_memory_registers(core: CoreModel, at: u8, val: u8, cart: CartModel)
    requires
        core.wf(),
    ensures
        ({
            let after = core.register_written(0x2003, at, cart).register_written(0x2004, val, cart);
            let back = after.register_written(0x2003, at, cart);
            &&& after.oam == core.oam.update(at as int, val)
            &&& after.oam_addr == (at + 1) % 256
            &&& back.register_value(0x2004, cart) == val
        }),
{
}

/// $2002: the upper three bits are vertical blanking, the hit and the overflow; the lower
/// five are what was last on the bus.
pub proof fn status_register(core: CoreModel, cart: CartModel)
    ensures
        ({
            let val = core.register_value(0x2002, cart);
            &&& bits::bit8(val, 7) <==> bits::bit8(core.status, 7)
            &&& bits::bit8(val, 6) <==> bits::bit8(core.status, 6)
            &&& bits::bit8(val, 5) <==> bits::bit8(core.status, 5)
            &&& val % 32 == core.open_bus % 32
        }),
{
    let val = core.register_value(0x2002, cart);
    assert(val == core.status / 32 * 32 + core.open_bus % 32);
    assert(val as int / 32 == core.status as int / 32);
    assert(val as int / 64 == core.status as int / 64);
    assert(val as int / 128 == core.status as int / 128);
}

/// The registers repeat every eight addresses.
#[verifier::rlimit(50)]
pub proof fn registers_repeat(core: CoreModel, r: u16, k: u16, val: u8, cart: CartModel)
    requires
        r < 8,
        k < 1024,
    ensures
        ({
            let first = (0x2000 + r) as u16;
            let other = (0x2000 + 8 * k + r) as u16;
            &&& core.register_value(first, cart) == core.register_value(other, cart)
            &&& core.register_read(first, cart) == core.register_read(other, cart)
            &&& core.register_written(first, val, cart) == core.register_written(other, val, cart)
        }),
{
    assert((0x2000 + 8 * k + r) % 8 == r as int);
}

/// `n` dots of fetching, one after the other.
pub open spec fn dots_fetched(core: CoreModel, cart: CartModel, n: int) -> CoreModel
    decreases n,
{
    if n <= 0 {
        core
    } else {
        let before = dots_fetched(core, cart, n - 1);
        CoreModel { dot: core.dot + n - 1, ..before }.fetch_cycle(cart)
    }
}

/// A shift register after eight dots: a tile enters when seven have passed.
pub open spec fn register_passed(r: u16, low: u8) -> u16 {
    ppu_core::shifted(
        ppu_core::loaded(
            ppu_core::shifted(
                ppu_core::shifted(
                    ppu_core::shifted(
                        ppu_core::shifted(
                            ppu_core::shifted(ppu_core::shifted(ppu_core::shifted(r))),
                        ),
                    ),
                ),
            ),
            low,
        ),
    )
}

/// One dot more.
proof fn lemma_dot(core: CoreModel, cart: CartModel, n: int)
    requires
        core.dot % 8 == 1,
        1 <= n <= 8,
    ensures
        ({
            let c = dots_fetched(core, cart, n - 1);
            let after = dots_fetched(core, cart, n);
            let here = CoreModel { dot: core.dot + n - 1, ..c };
            &&& n % 2 == 0 ==> after == here.pixels_shifted()
            &&& n == 1 ==> after == here.pixels_shifted().tile_fetched(cart)
            &&& n == 3 ==> after == here.pixels_shifted().attribute_fetched(cart)
            &&& n == 5 ==> after == here.pixels_shifted().low_fetched(cart)
            &&& n == 7 ==> after == here.pixels_shifted().high_fetched(cart).tile_loaded().moved_to(
                ppu_core::next_x(c.v),
            )
        }),
{
    assert((core.dot + n - 1) % 8 == n % 8);
}

/// What eight dots leave alone, and the tile's number, palette and pattern.
#[verifier::rlimit(50)]
proof fn lemma_tile_bytes(core: CoreModel, cart: CartModel)
    requires
        core.dot % 8 == 1,
    ensures
        ({
            let after = dots_fetched(core, cart, 8);
            let t = core.tile_fetched(cart);
            &&& after.v == ppu_core::next_x(core.v)
            &&& after.at_byte == core.attribute_fetched(cart).at_byte
            &&& after.bg_lo == t.low_fetched(cart).bg_lo
            &&& after.bg_hi == t.high_fetched(cart).bg_hi
        }),
{
    lemma_dot(core, cart, 1);
    lemma_dot(core, cart, 2);
    lemma_dot(core, cart, 3);
    lemma_dot(core, cart, 4);
    lemma_dot(core, cart, 5);
    lemma_dot(core, cart, 6);
    lemma_dot(core, cart, 7);
    lemma_dot(core, cart, 8);
    assert(dots_fetched(core, cart, 0) == core);
    let t = core.tile_fetched(cart);
    let one = dots_fetched(core, cart, 1);
    let two = dots_fetched(core, cart, 2);
    let three = dots_fetched(core, cart, 3);
    let four = dots_fetched(core, cart, 4);
    let five = dots_fetched(core, cart, 5);
    let six = dots_fetched(core, cart, 6);
    let seven = dots_fetched(core, cart, 7);
    assert(one.nt_byte == t.nt_byte && one.v == core.v && one.nt_ram == core.nt_ram && one.ctrl
        == core.ctrl);
    assert(two.nt_byte == t.nt_byte && two.v == core.v && two.nt_ram == core.nt_ram && two.ctrl
        == core.ctrl);
    assert(three.at_byte == core.attribute_fetched(cart).at_byte && three.nt_byte == t.nt_byte
        && three.v == core.v && three.ctrl == core.ctrl);
    assert(four.at_byte == three.at_byte && four.nt_byte == t.nt_byte && four.v == core.v
        && four.ctrl == core.ctrl);
    assert(five.bg_lo == t.low_fetched(cart).bg_lo && five.at_byte == three.at_byte
        && five.nt_byte == t.nt_byte && five.v == core.v && five.ctrl == core.ctrl);
    assert(six.bg_lo == five.bg_lo && six.at_byte == three.at_byte && six.nt_byte == t.nt_byte
        && six.v == core.v && six.ctrl == core.ctrl);
    assert(seven.bg_hi == t.high_fetched(cart).bg_hi && seven.bg_lo == five.bg_lo
        && seven.at_byte == three.at_byte && seven.v == ppu_core::next_x(core.v));
}

/// The registers during eight dots.
#[verifier::rlimit(50)]
proof fn lemma_tile_registers(core: CoreModel, cart: CartModel)
    requires
        core.dot % 8 == 1,
    ensures
        ({
            let after = dots_fetched(core, cart, 8);
            &&& after.bg_lo_shift == register_passed(core.bg_lo_shift, after.bg_lo)
            &&& after.bg_hi_shift == register_passed(core.bg_hi_shift, after.bg_hi)
            &&& after.at_lo_shift == register_passed(
                core.at_lo_shift,
                ppu_core::spread(bits::bit8(after.at_byte, 0)),
            )
            &&& after.at_hi_shift == register_passed(
                core.at_hi_shift,
                ppu_core::spread(bits::bit8(after.at_byte, 1)),
            )
        }),
{
    lemma_dot(core, cart, 1);
    lemma_dot(core, cart, 2);
    lemma_dot(core, cart, 3);
    lemma_dot(core, cart, 4);
    lemma_dot(core, cart, 5);
    lemma_dot(core, cart, 6);
    lemma_dot(core, cart, 7);
    lemma_dot(core, cart, 8);
    assert(dots_fetched(core, cart, 0) == core);
}

/// Eight dots fetch one tile: its number, its palette and its pattern row, all of the place
/// that the video address named when they began; then the address moves one tile on.
#[verifier::rlimit(50)]
pub proof fn eight_dots_fetch_a_tile(core: CoreModel, cart: CartModel, s: Spot)
    requires
        core.wf(),
        core.dot % 8 == 1,
        s.valid(),
        core.v == s.address(),
    ensures
        ({
            let after = dots_fetched(core, cart, 8);
            let tile = core.nt_ram[s.slot(cart.mirroring, 32 * s.row + s.column)];
            let attr = core.nt_ram[s.slot(cart.mirroring, 960 + s.row / 4 * 8 + s.column / 4)];
            let at = 16 * tile + s.fine + (if bits::bit8(core.ctrl, 4) {
                4096int
            } else {
                0
            });
            &&& after.v == ppu_core::next_x(core.v)
            &&& after.bg_lo == cart.chr[at]
            &&& after.bg_hi == cart.chr[at + 8]
            &&& after.at_byte == picture_laws::two_bits(
                bits::bit8(attr, s.quadrant()),
                bits::bit8(attr, s.quadrant() + 1),
            )
            &&& after.bg_lo_shift == register_passed(core.bg_lo_shift, after.bg_lo)
            &&& after.bg_hi_shift == register_passed(core.bg_hi_shift, after.bg_hi)
            &&& after.at_lo_shift == register_passed(
                core.at_lo_shift,
                ppu_core::spread(bits::bit8(after.at_byte, 0)),
            )
            &&& after.at_hi_shift == register_passed(
                core.at_hi_shift,
                ppu_core::spread(bits::bit8(after.at_byte, 1)),
            )
        }),
{
    lemma_tile_bytes(core, cart);
    lemma_tile_registers(core, cart);
    fetches_for_place(core, cart, s);
    patterns_for_place(core.tile_fetched(cart), cart, s);
}

/// The tile that entered lies in the register from bit 1 on, leftmost pixel highest, and the
/// one before it above.
#[verifier::rlimit(50)]
pub proof fn tiles_follow_each_other(r: u16, low: u8, n: u16)
    requires
        n < 8,
    ensures
        ppu_core::reg_bit(register_passed(r, low), n + 1) == 1 <==> bits::bit8(low, n as int),
        1 <= n ==> ppu_core::reg_bit(register_passed(r, low), n + 8) == ppu_core::reg_bit(
            r,
            n as int,
        ),
{
    let r1 = ppu_core::shifted(r);
    let r2 = ppu_core::shifted(r1);
    let r3 = ppu_core::shifted(r2);
    let r4 = ppu_core::shifted(r3);
    let r5 = ppu_core::shifted(r4);
    let r6 = ppu_core::shifted(r5);
    let r7 = ppu_core::shifted(r6);
    let put = ppu_core::loaded(r7, low);
    shift_registers(r7, low, n);
    shift_registers(put, low, n);
    if 1 <= n {
        shift_registers(r, low, n);
        shift_registers(r1, low, (n + 1) as u16);
        shift_registers(r2, low, (n + 2) as u16);
        shift_registers(r3, low, (n + 3) as u16);
        shift_registers(r4, low, (n + 4) as u16);
        shift_registers(r5, low, (n + 5) as u16);
        shift_registers(r6, low, (n + 6) as u16);
        shift_registers(r7, low, (n + 7) as u16);
        shift_registers(put, low, (n + 7) as u16);
    }
}

/// When the background is fetched and where scrolling goes: on every line that is drawn and
/// the one before them, during dots 1 to 256 and 321 to 336; at dot 256 the address moves a
/// row down, at dot 257 the column comes back, and before the first line, from dot 280 to
/// 304, the row.
pub proof fn dots_of_a_line(core: CoreModel, cart: CartModel)
    requires
        core.wf(),
    ensures
        ({
            let drawn = core.scanline < 240 || core.scanline == 261;
            let fetches = drawn && (1 <= core.dot <= 256 || 321 <= core.dot <= 336);
            let fetched = if fetches {
                core.fetch_cycle(cart)
            } else {
                core
            };
            let v = if drawn && core.dot == 256 {
                ppu_core::next_y(fetched.v)
            } else if drawn && core.dot == 257 {
                ppu_core::copied_x(fetched.v, fetched.t)
            } else if core.scanline == 261 && 280 <= core.dot <= 304 {
                ppu_core::copied_y(fetched.v, fetched.t)
            } else {
                fetched.v
            };
            core.background_cycle(cart) == (CoreModel { v, ..fetched })
        }),
{
}

/// A column that is drawn at once puts its colour, as one word, at its row and column.
pub proof fn columns_are_drawn(scan: ScanModel, px: int, i: int)
    requires
        scan.wf(),
        scan.core.visible(),
        0 <= px < 256,
        0 <= i < 61440,
    ensures
        ({
            let at = 256 * scan.core.scanline + px;
            let after = scan.column_drawn(px);
            let slot = ppu_core::mixed(
                scan.core.background_pixel(px),
                scan.sprite_pixel(px),
            );
            let color = scan.core.palette[slot] as int % 64;
            let c = crate::palette::NES_PAL[color];
            &&& after.framebuffer[at] == 65536 * c[0] + 256 * c[1] + c[2]
            &&& i != at ==> after.framebuffer[i] == scan.framebuffer[i]
        }),
{
}

/// A tile that is fetched at once has the number, palette and pattern row of its place; when
/// it is passed it enters the registers and the address moves one tile on.
#[verifier::rlimit(50)]
pub proof fn whole_tiles(core: CoreModel, cart: CartModel, s: Spot)
    requires
        core.wf(),
        s.valid(),
        core.v == s.address(),
    ensures
        ({
            let after = core.whole_tile_fetched(cart);
            let tile = core.nt_ram[s.slot(cart.mirroring, 32 * s.row + s.column)];
            let attr = core.nt_ram[s.slot(cart.mirroring, 960 + s.row / 4 * 8 + s.column / 4)];
            let at = 16 * tile + s.fine + (if bits::bit8(core.ctrl, 4) {
                4096int
            } else {
                0
            });
            &&& after.bg_lo == cart.chr[at]
            &&& after.bg_hi == cart.chr[at + 8]
            &&& after.at_byte == picture_laws::two_bits(
                bits::bit8(attr, s.quadrant()),
                bits::bit8(attr, s.quadrant() + 1),
            )
            &&& after.bg_lo_shift == core.bg_lo_shift && after.bg_hi_shift == core.bg_hi_shift
            &&& core.tile_passed().v == ppu_core::next_x(core.v)
            &&& core.tile_passed().bg_lo_shift == core.tile_loaded().bg_lo_shift
            &&& core.tile_passed().bg_hi_shift == core.tile_loaded().bg_hi_shift
            &&& core.tile_passed().at_lo_shift == core.tile_loaded().at_lo_shift
            &&& core.tile_passed().at_hi_shift == core.tile_loaded().at_hi_shift
        }),
{
    fetches_for_place(core, cart, s);
    let t = core.tile_fetched(cart).attribute_fetched(cart);
    patterns_for_place(t, cart, s);
}

/// Moving the registers by a whole tile is moving them by eight pixels.
pub proof fn tiles_are_eight_pixels(core: CoreModel)
    ensures
        core.tile_shifted() == core.pixels_shifted().pixels_shifted().pixels_shifted().pixels_shifted().pixels_shifted().pixels_shifted().pixels_shifted().pixels_shifted(),
{
    lemma_eight_shifts(core.bg_lo_shift);
    lemma_eight_shifts(core.bg_hi_shift);
    lemma_eight_shifts(core.at_lo_shift);
    lemma_eight_shifts(core.at_hi_shift);
}

/// Doubling modulo 65536.
proof fn lemma_double(x: int, y: int)
    requires
        y == x % 65536,
    ensures
        2 * y % 65536 == 2 * x % 65536,
{
    vstd::arithmetic::div_mod::lemma_mul_mod_noop_right(2, x, 65536);
}

proof fn lemma_eight_shifts(r: u16)
    ensures
        ({
            let r4 = ppu_core::shifted(
                ppu_core::shifted(ppu_core::shifted(ppu_core::shifted(r))),
            );
            ppu_core::shifted(ppu_core::shifted(ppu_core::shifted(ppu_core::shifted(r4)))) == r
                * 256 % 65536
        }),
{
    let r1 = ppu_core::shifted(r);
    let r2 = ppu_core::shifted(r1);
    let r3 = ppu_core::shifted(r2);
    let r4 = ppu_core::shifted(r3);
    let r5 = ppu_core::shifted(r4);
    let r6 = ppu_core::shifted(r5);
    let r7 = ppu_core::shifted(r6);
    lemma_double(2 * r, r1 as int);
    lemma_double(4 * r, r2 as int);
    lemma_double(8 * r, r3 as int);
    lemma_double(16 * r, r4 as int);
    lemma_double(32 * r, r5 as int);
    lemma_double(64 * r, r6 as int);
    lemma_double(128 * r, r7 as int);
}

/// The map of video memory, which repeats every 16384 bytes: patterns from the cartridge,
/// four nametables, twice, and the palette, over and over.
#[verifier::rlimit(50)]
pub proof fn video_map(core: CoreModel, cart: CartModel, s: Spot, a: int)
    requires
        core.wf(),
        s.valid(),
        0 <= a < 65536,
    ensures
        ({
            let at = a % 16384;
            let cell = 1024 * s.table + 32 * s.row + s.column;
            &&& at < 8192 ==> core.vram(a, cart) == cart.chr[at]
            &&& at == 8192 + cell || (at == 12288 + cell && cell < 3840) ==> core.vram(a, cart)
                == core.nt_ram[s.slot(cart.mirroring, 32 * s.row + s.column)]
            &&& at >= 16128 && at % 32 < 16 ==> core.vram(a, cart) == core.palette[at % 32]
            &&& at >= 16128 && at % 32 >= 16 && at % 4 != 0 ==> core.vram(a, cart)
                == core.palette[at % 32]
            &&& at >= 16128 && at % 32 >= 16 && at % 4 == 0 ==> core.vram(a, cart)
                == core.palette[at % 16]
        }),
{
    lemma_slots(s, cart.mirroring);
    let at = a % 16384;
    let cell = 1024 * s.table + 32 * s.row + s.column;
    if at == 8192 + cell {
        assert(at % 4096 == cell);
    }
    if at == 12288 + cell {
        assert(at % 4096 == cell);
    }
}

/// Reading $2007 gives what the last read fetched, and fetches the byte at the address; only
/// palette entries come at once. The address moves on.
pub proof fn reads_are_delayed(core: CoreModel, cart: CartModel)
    requires
        core.wf(),
    ensures
        ({
            let after = core.register_read(0x2007, cart);
            let palette = core.v as int % 16384 >= 16128;
            &&& !palette ==> core.register_value(0x2007, cart) == core.read_buf
            &&& !palette ==> after.read_buf == core.vram(core.v as int, cart)
            &&& palette ==> core.register_value(0x2007, cart) == core.vram(core.v as int, cart)
            &&& palette ==> after.read_buf == core.vram(core.v - 4096, cart)
            &&& after.v == core.v.wrapping_add(
                if bits::bit8(core.ctrl, 2) {
                    32
                } else {
                    1
                },
            )
        }),
{
}

/// Vertical blanking raises bit 7 of the status and, if bit 7 of the control register was
/// set, the interrupt signal, which reaches the processor fifteen dots later; its end clears
/// blanking, hit and overflow. A signal that is already raised is not raised again.
pub proof fn blanking_signals(core: CoreModel)
    ensures
        ({
            let begun = core.vblank_begun();
            let ended = core.vblank_ended();
            &&& bits::bit8(begun.status, 7)
            &&& begun.status % 128 == core.status % 128
            &&& ended.status == core.status % 32
            &&& begun.nmi_line <==> core.nmi_output
            &&& core.nmi_output && !core.nmi_line ==> begun.nmi_delay == 15
            &&& !core.nmi_output || core.nmi_line ==> begun.nmi_delay == core.nmi_delay
            &&& !ended.nmi_line
            &&& ended.nmi_delay == core.nmi_delay
            &&& begun.nmi_occurred && !ended.nmi_occurred
        }),
{
}

/// The signal counts down by one each dot and arrives on the last, unless it was taken back.
pub proof fn signals_arrive(core: CoreModel)
    ensures
        core.nmi_delay > 0 ==> core.countdown().nmi_delay + 1 == core.nmi_delay,
        core.nmi_delay == 0 ==> core.countdown() == core,
        core.nmi_arrives() <==> core.nmi_delay == 1 && core.nmi_output && core.nmi_occurred,
        core.nmi_due() <==> core.nmi_delay > 0 && core.nmi_output && core.nmi_occurred,
{
}

/// When blanking begins and ends: at dot 1 of lines 241 and 261. A frame has 262 lines of 341
/// dots; with rendering on every other frame is one dot shorter.
pub proof fn dots_pass(core: CoreModel)
    requires
        core.wf(),
    ensures
        ({
            let after = core.blanking_cycle();
            &&& core.dot == 1 && core.scanline == 241 ==> after == core.vblank_begun()
            &&& core.dot == 1 && core.scanline == 261 ==> after == core.vblank_ended()
            &&& core.dot != 1 || (core.scanline != 241 && core.scanline != 261) ==> after == core
        }),
        ({
            let next = core.advanced();
            let on = bits::bit8(core.mask, 3) || bits::bit8(core.mask, 4);
            let short = on && core.odd_frame && core.scanline == 261 && core.dot == 339;
            let last = short || (core.scanline == 261 && core.dot == 340);
            &&& last ==> next.scanline == 0 && next.dot == 0 && next.frame_count
                == core.frame_count + 1 && next.odd_frame == !core.odd_frame
            &&& !last && core.dot == 340 ==> next.scanline == core.scanline + 1 && next.dot == 0
            &&& !last && core.dot < 340 ==> next.scanline == core.scanline && next.dot == core.dot
                + 1
            &&& !last ==> next.frame_count == core.frame_count && next.odd_frame == core.odd_frame
        }),
{
}

} // verus!

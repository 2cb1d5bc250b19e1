//! What pictures show: how nametables, attributes, patterns and sprites make up a pixel, for
//! the replay and for the renderer alike.

use vstd::prelude::*;
use crate::bits;
use crate::contra::renderer::Scene;
use crate::game::GameModel;
use crate::palette;
use crate::renderer;
use crate::renderer::{Backdrop, SpriteLayer};

verus! {

/// A place in a nametable: block (`i`, `j`) of 32 by 32 pixels, and the pixel inside it.
pub ghost struct Place {
    /// 0 for the left nametable, 1 for the right one.
    pub table: int,
    pub i: int,
    pub j: int,
    pub dx: int,
    pub dy: int,
}

impl Place {
    pub open spec fn valid(self) -> bool {
        &&& 0 <= self.table < 2
        &&& 0 <= self.i < 8
        &&& 0 <= self.j < 8
        &&& 0 <= self.dx < 32
        &&& 0 <= self.dy < 32
        &&& 32 * self.j + self.dy < 240
    }

    /// The tile number's index: 32 to a row, 4 to a block.
    pub open spec fn tile_index(self) -> int {
        1024 * self.table + 32 * (4 * self.j + self.dy / 8) + 4 * self.i + self.dx / 8
    }

    /// The attribute byte's index: one for each block, behind the 960 tiles.
    pub open spec fn attribute_index(self) -> int {
        1024 * self.table + 960 + 8 * self.j + self.i
    }

    /// The lower of the two attribute bits that hold for the place's quadrant: bits 0 and 1
    /// for the top left, 2 and 3 for the top right, 4 and 5 for the bottom left, 6 and 7 for
    /// the bottom right.
    pub open spec fn quadrant(self) -> int {
        if self.dy < 16 {
            if self.dx < 16 {
                0
            } else {
                2
            }
        } else {
            if self.dx < 16 {
                4
            } else {
                6
            }
        }
    }
}

/// A number of two bits.
pub open spec fn two_bits(low: bool, high: bool) -> int {
    (if low {
        1int
    } else {
        0
    }) + (if high {
        2int
    } else {
        0
    })
}

/// Two neighbouring bits of a byte as a number.
pub proof fn bit_pairs(b: u8)
    ensures
        b as int % 4 == two_bits(bits::bit8(b, 0), bits::bit8(b, 1)),
        b as int / 4 % 4 == two_bits(bits::bit8(b, 2), bits::bit8(b, 3)),
        b as int / 16 % 4 == two_bits(bits::bit8(b, 4), bits::bit8(b, 5)),
        b as int / 64 % 4 == two_bits(bits::bit8(b, 6), bits::bit8(b, 7)),
{
    bits::bit_weights(b);
}

/// A pixel of a row or column of blocks: its tile, its block and its half of the block.
proof fn lemma_in_block(w: int, i: int, d: int)
    requires
        w == 32 * i + d,
        0 <= i,
        0 <= d < 32,
    ensures
        w / 8 == 4 * i + d / 8,
        w / 8 / 4 == i,
        w / 8 / 2 % 2 == (if d < 16 {
            0int
        } else {
            1
        }),
        w % 8 == d % 8,
{
    let k = d / 8;
    assert(0 <= k < 4);
    assert(w / 8 == 4 * i + k);
    assert((4 * i + k) / 4 == i);
    assert((4 * i + k) / 2 == 2 * i + k / 2);
}

/// Where a scrolled column lies.
#[verifier::rlimit(50)]
proof fn lemma_column(v: int, place: Place)
    requires
        place.valid(),
        v >= 0,
        v % 512 == 256 * place.table + 32 * place.i + place.dx,
    ensures
        v / 256 % 2 == place.table,
        v % 256 == 32 * place.i + place.dx,
        v % 256 / 8 == 4 * place.i + place.dx / 8,
        v % 256 / 8 / 4 == place.i,
        v % 256 / 8 / 2 % 2 == (if place.dx < 16 {
            0int
        } else {
            1
        }),
        v % 256 % 8 == place.dx % 8,
        v % 8 == place.dx % 8,
{
    let q = v / 512;
    let w = 32 * place.i + place.dx;
    assert(v == 512 * q + v % 512);
    assert(v == 256 * (2 * q + place.table) + w);
    lemma_in_block(w, place.i, place.dx);
    assert(v / 256 == 2 * q + place.table);
    assert(v % 256 == w);
    assert(v % 8 == w % 8);
}

/// Where a scrolled row lies.
#[verifier::rlimit(50)]
proof fn lemma_row(v: int, place: Place)
    requires
        place.valid(),
        v >= 0,
        v % 240 == 32 * place.j + place.dy,
    ensures
        v % 240 / 8 == 4 * place.j + place.dy / 8,
        v % 240 / 8 / 4 == place.j,
        v % 240 / 8 / 2 % 2 == (if place.dy < 16 {
            0int
        } else {
            1
        }),
        v % 240 % 8 == place.dy % 8,
        v % 8 == place.dy % 8,
{
    lemma_in_block(v % 240, place.j, place.dy);
    assert(v == 240 * (v / 240) + v % 240);
    assert(v % 8 == (v % 240) % 8);
}

/// Screen column `x` and row `y` of a replay show a place of the upper nametables.
pub open spec fn shows(game: GameModel, x: int, y: int, place: Place) -> bool {
    &&& 0 <= x < 256
    &&& 0 <= y < 240
    &&& place.valid()
    &&& (x + game.scroll_x) % 512 == 256 * place.table + 32 * place.i + place.dx
    &&& y + game.scroll_y < 65536
    &&& (y + game.scroll_y) % 480 == 32 * place.j + place.dy
}

/// An opaque pixel of a replay's background comes from the palette group that the attribute
/// table holds for its 16 by 16 square, and from the pattern of its tile: the low bits lie
/// eight bytes before the high bits, the leftmost pixel in the highest bit. Where both are
/// clear the background is transparent.
#[verifier::rlimit(50)]
pub proof fn replayed_background(game: GameModel, x: int, y: int, place: Place)
    requires
        game.wf(),
        shows(game, x, y, place),
    ensures
        ({
            let tile = game.nametable[place.tile_index()];
            let attr = game.nametable[place.attribute_index()];
            let row = 16 * tile + place.dy % 8 + (if bits::bit8(game.ctrl, 4) {
                4096int
            } else {
                0
            });
            let pixel = two_bits(
                bits::bit8(game.chr_data[row], 7 - place.dx % 8),
                bits::bit8(game.chr_data[row + 8], 7 - place.dx % 8),
            );
            let group = two_bits(
                bits::bit8(attr, place.quadrant()),
                bits::bit8(attr, place.quadrant() + 1),
            );
            let slot = game.background_slot(x, y);
            &&& pixel == 0 ==> slot == 0
            &&& pixel > 0 ==> slot == 4 * group + pixel
        }),
{
    let v = x + game.scroll_x;
    let w = y + game.scroll_y;
    let abs_x = v % 65536;
    assert(abs_x % 512 == v % 512);
    lemma_column(abs_x, place);
    assert(w % 240 == (w % 480) % 240 && w / 240 % 2 == 0) by {
        assert(w == 480 * (w / 480) + w % 480);
    }
    lemma_row(w, place);
    assert(w % 65536 == w);
    let attr = game.nametable[place.attribute_index()];
    bit_pairs(attr);
}

/// Where a replay's background is scrolled to the lower nametables, which it does not have,
/// it is transparent.
pub proof fn replayed_background_ends(game: GameModel, x: int, y: int)
    requires
        game.wf(),
        0 <= x < 256,
        0 <= y < 240,
        y + game.scroll_y < 65536,
        (y + game.scroll_y) % 480 >= 240,
    ensures
        game.background_slot(x, y) == 0,
{
    let w = y + game.scroll_y;
    assert(w / 240 % 2 == 1) by {
        assert(w == 480 * (w / 480) + w % 480);
    }
    assert(w % 65536 == w);
}

/// The scene of a replay, as the renderer takes it.
pub open spec fn backdrop_of(game: GameModel) -> Backdrop {
    Backdrop {
        chr: game.chr_data,
        nametable: game.nametable,
        palette: game.pal_data,
        scroll_x: game.scroll_x as int,
        scroll_y: game.scroll_y as int,
        base: if bits::bit8(game.ctrl, 4) {
            0x1000
        } else {
            0
        },
    }
}

/// The renderer's background is made up in the same way, place by place.
#[verifier::rlimit(50)]
pub proof fn rendered_background(b: Backdrop, x: int, y: int, place: Place)
    requires
        b.nametable.len() == 2048,
        b.chr.len() == 8192,
        b.base == 0 || b.base == 4096,
        b.scroll_x >= 0,
        b.scroll_y >= 0,
        x >= 0,
        y >= 0,
        place.valid(),
        (b.scroll_x + x) % 256 == 32 * place.i + place.dx,
        (b.scroll_y + y) % 240 == 32 * place.j + place.dy,
        place.table == ((b.scroll_x + x) / 256 + (b.scroll_y + y) / 240) % 2,
    ensures
        ({
            let tile = b.nametable[place.tile_index()];
            let attr = b.nametable[place.attribute_index()];
            let row = b.base + 16 * tile + place.dy % 8;
            &&& b.pixel(x, y) == two_bits(
                bits::bit8(b.chr[row], 7 - place.dx % 8),
                bits::bit8(b.chr[row + 8], 7 - place.dx % 8),
            )
            &&& b.group(x, y) == two_bits(
                bits::bit8(attr, place.quadrant()),
                bits::bit8(attr, place.quadrant() + 1),
            )
            &&& b.pixel(x, y) > 0 && b.palette.len() >= 32 ==> b.color(x, y) == renderer::color_of(
                b.palette[4 * b.group(x, y) + b.pixel(x, y)],
            )
            &&& b.pixel(x, y) == 0 && b.palette.len() >= 32 ==> b.color(x, y) == renderer::color_of(
                b.palette[0],
            )
        }),
{
    let v = b.scroll_x + x;
    let w = b.scroll_y + y;
    let left = Place { table: v / 256 % 2, ..place };
    assert(v % 512 == 256 * (v / 256 % 2) + v % 256);
    lemma_column(v, left);
    lemma_row(w, place);
    assert(v % 512 / 256 == v / 256 % 2);
    assert(w % 480 / 240 == w / 240 % 2);
    assert((v % 512 / 256 + w % 480 / 240) % 2 == place.table);
    bit_pairs(b.nametable[place.attribute_index()]);
}

/// A place of the upper nametables lies in the nametable that the column chooses.
#[verifier::rlimit(50)]
proof fn lemma_upper(v: int, w: int, place: Place)
    requires
        place.valid(),
        v >= 0,
        w >= 0,
        v % 512 == 256 * place.table + 32 * place.i + place.dx,
        w % 480 == 32 * place.j + place.dy,
    ensures
        v % 256 == 32 * place.i + place.dx,
        w % 240 == 32 * place.j + place.dy,
        (v / 256 + w / 240) % 2 == place.table,
{
    assert(v == 512 * (v / 512) + v % 512);
    assert(w == 480 * (w / 480) + w % 480);
    assert(v / 256 == 2 * (v / 512) + place.table);
    assert(w / 240 == 2 * (w / 480));
}

/// A replay shows the same background as the renderer draws of its scene: each pixel takes
/// the same entry of the palette.
pub proof fn replay_agrees_with_renderer(game: GameModel, x: int, y: int, place: Place)
    requires
        game.wf(),
        shows(game, x, y, place),
    ensures
        renderer::background_of(
            game.chr_data,
            game.nametable,
            game.pal_data,
            game.scroll_x,
            game.scroll_y,
            game.ctrl,
            0x08,
            256 * y + x,
        ) == renderer::color_of(game.pal_data[game.background_slot(x, y)]),
{
    let b = backdrop_of(game);
    let p = 256 * y + x;
    assert(p % 256 == x && p / 256 == y);
    assert(bits::bit8(0x08, 3));
    lemma_same_entry(game, x, y, place);
}

#[verifier::rlimit(50)]
proof fn lemma_same_entry(game: GameModel, x: int, y: int, place: Place)
    requires
        game.wf(),
        shows(game, x, y, place),
    ensures
        backdrop_of(game).color(x, y) == renderer::color_of(
            game.pal_data[game.background_slot(x, y)],
        ),
{
    let b = backdrop_of(game);
    lemma_upper(b.scroll_x + x, b.scroll_y + y, place);
    rendered_background(b, x, y, place);
    replayed_background(game, x, y, place);
}

/// A sprite covers eight columns from its column on, and eight or sixteen rows from one below
/// its row on.
pub open spec fn covers(tall: bool, dx: int, dy: int) -> bool {
    0 <= dx < 8 && 0 <= dy < (if tall {
        16int
    } else {
        8
    })
}

/// The pattern row that a sprite shows at its row `dy` of an unflipped picture: a small
/// sprite's table comes from bit 3 of the control register, a tall one's from bit 0 of the
/// tile number, with the next tile below.
pub open spec fn sprite_row(ctrl: u8, tile: u8, dy: int) -> int {
    if bits::bit8(ctrl, 5) {
        (if tile % 2 == 1 {
            4096int
        } else {
            0
        }) + 16 * (tile - tile % 2) + (if dy < 8 {
            dy
        } else {
            dy + 8
        })
    } else {
        (if bits::bit8(ctrl, 3) {
            4096int
        } else {
            0
        }) + 16 * tile + dy
    }
}

/// A replayed sprite shows its pattern from the pixel below and right of its position on;
/// elsewhere nothing of it shows. Bit 6 of its attributes mirrors it left to right, bit 7
/// top to bottom.
#[verifier::rlimit(50)]
pub proof fn replayed_sprites(game: GameModel, sp: (u8, u8, u8, u8), dx: int, dy: int)
    requires
        game.wf(),
    ensures
        ({
            let tall = bits::bit8(game.ctrl, 5);
            let shown = game.sprite_pixel(sp, sp.3 + dx, sp.0 + 1 + dy);
            let col = if bits::bit8(sp.2, 6) {
                7 - dx
            } else {
                dx
            };
            let down = if !bits::bit8(sp.2, 7) {
                dy
            } else if tall {
                15 - dy
            } else {
                7 - dy
            };
            let row = sprite_row(game.ctrl, sp.1, down);
            &&& covers(tall, dx, dy) ==> shown == two_bits(
                bits::bit8(game.chr_data[row], 7 - col),
                bits::bit8(game.chr_data[row + 8], 7 - col),
            )
            &&& !covers(tall, dx, dy) ==> shown == 0
        }),
{
}

/// Mirrored sprites show at one edge what others show at the opposite edge.
#[verifier::rlimit(50)]
pub proof fn mirrored_sprites(game: GameModel, y: u8, tile: u8, attr: u8, x: u8, dx: int, dy: int)
    requires
        game.wf(),
        attr < 64,
        0 <= dx < 8,
        0 <= dy < 8,
    ensures
        ({
            let plain = (y, tile, attr, x);
            let across = (y, tile, (attr + 64) as u8, x);
            let down = (y, tile, (attr + 128) as u8, x);
            let height: int = if bits::bit8(game.ctrl, 5) {
                16
            } else {
                8
            };
            &&& game.sprite_pixel(across, x + dx, y + 1 + dy) == game.sprite_pixel(
                plain,
                x + 7 - dx,
                y + 1 + dy,
            )
            &&& game.sprite_pixel(down, x + dx, y + 1 + dy) == game.sprite_pixel(
                plain,
                x + dx,
                y + height - dy,
            )
        }),
{
    bits::bit_weights(attr);
    bits::bit_weights((attr + 64) as u8);
    bits::bit_weights((attr + 128) as u8);
    replayed_sprites(game, (y, tile, attr, x), dx, dy);
}

/// The renderer takes the same pixels from a sprite as a replay does.
#[verifier::rlimit(50)]
pub proof fn rendered_sprites(game: GameModel, sp: (u8, u8, u8, u8), x: int, y: int)
    requires
        game.wf(),
        0 <= x < 256,
        0 <= y < 240,
    ensures
        ({
            let layer = SpriteLayer {
                chr: game.chr_data,
                palette: game.pal_data,
                ctrl: game.ctrl,
            };
            let p = 256 * y + x;
            let back = renderer::color_of(game.pal_data[0]);
            let pixel = game.sprite_pixel(sp, x, y);
            &&& layer.shows(sp, p, back) <==> pixel != 0
            &&& pixel != 0 ==> layer.over(sp, p, back, back) == renderer::color_of(
                game.pal_data[16 + 4 * (sp.2 % 4) + pixel],
            )
        }),
{
    let p = 256 * y + x;
    assert(p % 256 == x && p / 256 == y);
}

/// The front sprite is the first of the list that is opaque there.
pub proof fn first_sprite_is_in_front(game: GameModel, x: int, y: int, from: int)
    requires
        0 <= from <= game.sprites.len(),
    ensures
        match game.front_sprite(x, y, from) {
            Some(s) => {
                &&& from <= s < game.sprites.len()
                &&& game.sprite_pixel(game.sprites[s], x, y) != 0
                &&& forall|k: int|
                    from <= k < s ==> game.sprite_pixel(#[trigger] game.sprites[k], x, y) == 0
            },
            None => forall|k: int|
                from <= k < game.sprites.len() ==> game.sprite_pixel(
                    #[trigger] game.sprites[k],
                    x,
                    y,
                ) == 0,
        },
    decreases game.sprites.len() - from,
{
    if from < game.sprites.len() {
        first_sprite_is_in_front(game, x, y, from + 1);
    }
}

/// What a replay's pixel shows. Bit 3 of the mask turns the background on, bit 4 the
/// sprites; the front sprite covers the background unless bit 5 of its attributes puts it
/// behind an opaque one. Sprites use the upper half of the palette, in groups by the lowest
/// two attribute bits; where nothing shows the first entry does.
pub proof fn layers_mix(game: GameModel, x: int, y: int)
    ensures
        ({
            let back = if bits::bit8(game.mask, 3) {
                game.background_slot(x, y)
            } else {
                0
            };
            &&& !bits::bit8(game.mask, 4) ==> game.slot(x, y) == back
            &&& bits::bit8(game.mask, 4) ==> match game.front_sprite(x, y, 0) {
                None => game.slot(x, y) == back,
                Some(s) => {
                    let sp = game.sprites[s];
                    let own = 16 + two_bits(bits::bit8(sp.2, 0), bits::bit8(sp.2, 1)) * 4
                        + game.sprite_pixel(sp, x, y);
                    if bits::bit8(sp.2, 5) && back != 0 {
                        game.slot(x, y) == back
                    } else {
                        game.slot(x, y) == own
                    }
                },
            }
        }),
{
    match game.front_sprite(x, y, 0) {
        Some(s) => {
            bit_pairs(game.sprites[s].2);
        },
        None => {},
    }
}

/// A drawn picture holds red, green and blue of each pixel, row by row.
pub proof fn drawn_pixels(game: GameModel, x: int, y: int)
    requires
        0 <= x < 256,
        0 <= y < 240,
    ensures
        ({
            let at = 3 * (256 * y + x);
            let shown = game.drawn().framebuffer;
            let color = game.pal_data[game.slot(x, y)] as int % 64;
            &&& shown[at] == palette::NES_PAL[color][0]
            &&& shown[at + 1] == palette::NES_PAL[color][1]
            &&& shown[at + 2] == palette::NES_PAL[color][2]
            &&& shown.len() == 184320
        }),
{
    let p = 256 * y + x;
    assert(p % 256 == x && p / 256 == y);
    assert((3 * p) / 3 == p && (3 * p + 1) / 3 == p && (3 * p + 2) / 3 == p);
}

/// A picture that is recoloured holds red, green and blue of each pixel's new colour; bytes
/// past the last pixel stay.
pub proof fn recolored_pixels(
    fb: Seq<u8>,
    f: spec_fn(int, (u8, u8, u8)) -> (u8, u8, u8),
    p: int,
    i: int,
)
    requires
        0 <= p < 61440,
        3 * p + 2 < fb.len(),
        184320 <= i < fb.len() || (fb.len() - fb.len() % 3 <= i < fb.len()),
    ensures
        ({
            let after = renderer::recolored(fb, f);
            let c = f(p, (fb[3 * p], fb[3 * p + 1], fb[3 * p + 2]));
            &&& after[3 * p] == c.0
            &&& after[3 * p + 1] == c.1
            &&& after[3 * p + 2] == c.2
            &&& after[i] == fb[i]
            &&& after.len() == fb.len()
        }),
{
    assert(3 * p / 3 == p && (3 * p + 1) / 3 == p && (3 * p + 2) / 3 == p);
    assert(3 * p % 3 == 0 && (3 * p + 1) % 3 == 1 && (3 * p + 2) % 3 == 2);
    assert(!renderer::pixel_fits(fb.len(), i / 3));
}

/// A whole picture: bit 3 of the mask turns the background on, without which the first
/// palette entry shows, and bit 4 the sprites.
pub proof fn rendered_layers(
    chr: Seq<u8>,
    nametable: Seq<u8>,
    palette: Seq<u8>,
    sprites: Seq<(u8, u8, u8, u8)>,
    scroll_x: u16,
    scroll_y: u16,
    ctrl: u8,
    mask: u8,
    p: int,
)
    requires
        palette.len() >= 32,
    ensures
        ({
            let back = renderer::background_of(
                chr,
                nametable,
                palette,
                scroll_x,
                scroll_y,
                ctrl,
                mask,
                p,
            );
            let shown = renderer::frame_color(
                chr,
                nametable,
                palette,
                sprites,
                scroll_x,
                scroll_y,
                ctrl,
                mask,
                p,
            );
            let layer = SpriteLayer { chr, palette, ctrl };
            &&& !bits::bit8(mask, 3) ==> back == renderer::color_of(palette[0])
            &&& !bits::bit8(mask, 4) ==> shown == back
            &&& bits::bit8(mask, 4) && sprites.len() == 0 ==> shown == back
            &&& bits::bit8(mask, 4) && sprites.len() > 0 && layer.shows(sprites[0], p, back)
                ==> shown == renderer::color_of(
                palette[16 + 4 * (sprites[0].2 % 4) + layer.pixel(sprites[0], p)],
            )
        }),
{
}

/// A sprite behind the background shows only where the background has the colour of the
/// first palette entry; one in front shows wherever it is opaque.
#[verifier::rlimit(50)]
pub proof fn sprites_behind(layer: SpriteLayer, sp: (u8, u8, u8, u8), p: int, back: (u8, u8, u8))
    requires
        layer.palette.len() >= 32,
    ensures
        ({
            let first = renderer::color_of(layer.palette[0]);
            &&& bits::bit8(sp.2, 5) && back != first ==> !layer.shows(sp, p, back)
            &&& bits::bit8(sp.2, 5) && back == first ==> (layer.shows(sp, p, back) <==> layer.shows(
                (sp.0, sp.1, (sp.2 - 32) as u8, sp.3),
                p,
                back,
            ))
        }),
{
    let plain = (sp.2 - 32) as u8;
    if bits::bit8(sp.2, 5) {
        bits::bit_weights(sp.2);
        bits::bit_weights(plain);
    }
}

/// An update takes the next frame of the trace, if one is left, and draws it; frames are
/// counted in any case.
pub proof fn updates_show_frames(game: GameModel)
    ensures
        game.updated().frame_index == game.frame_index + 1,
        game.frame_index < game.total_frames ==> game.updated().framebuffer
            == game.delta_applied().drawn().framebuffer,
        game.frame_index >= game.total_frames ==> game.updated().framebuffer
            == game.drawn().framebuffer,
        game.frame_index < game.total_frames ==> game.updated().trace_offset
            == game.delta_applied().trace_offset,
        game.updated().total_frames == game.total_frames,
        game.updated().trace == game.trace,
{
}

/// What a column of a drawn scanline shows: the background unless bit 3 of the mask is clear,
/// or bit 1 in the leftmost eight columns; the sprites unless bit 4 is, or bit 2 there.
pub proof fn scene_layers(scene: Scene, px: int)
    ensures
        ({
            let back = bits::bit8(scene.mask, 3) && (px >= 8 || bits::bit8(scene.mask, 1));
            let front = bits::bit8(scene.mask, 4) && (px >= 8 || bits::bit8(scene.mask, 2));
            let (color, palette) = scene.tile_pixel(px);
            let sp = scene.line[px];
            &&& !back && !front ==> scene.slot(px) == 0 && !scene.hit_at(px)
            &&& back && color != 0 && (!front || sp.color == 0) ==> scene.slot(px) == 4 * palette
                + color
            &&& front && sp.color != 0 && (!back || color == 0 || !sp.behind) ==> scene.slot(px)
                == 4 * sp.palette + sp.color
            &&& front && sp.color != 0 && back && color != 0 && sp.behind ==> scene.slot(px) == 4
                * palette + color
            &&& scene.hit_at(px) <==> back && front && color != 0 && sp.color != 0 && sp.zero && px
                < 255
        }),
{
}

} // verus!

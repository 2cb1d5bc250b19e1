//! Draws tiles and sprites straight into an RGB24 picture.
//!
//! Pixels that do not fit into the picture's buffer are left out.

use vstd::prelude::*;
use vstd::slice::slice_to_vec;
use crate::bits;

verus! {

pub const SCREEN_WIDTH: usize = 256;

pub const SCREEN_HEIGHT: usize = 240;

/// Bytes of a whole picture.
pub const FB_SIZE: usize = 184320;

/// Red, green and blue of the 64 colours.
pub const NES_PALETTE: [(u8, u8, u8); 64] = [
    (0x62, 0x62, 0x62), (0x00, 0x2E, 0x98), (0x12, 0x12, 0xA7), (0x3B, 0x00, 0xA4),
    (0x5B, 0x00, 0x89), (0x6B, 0x00, 0x5A), (0x6A, 0x00, 0x1E), (0x55, 0x12, 0x00),
    (0x35, 0x28, 0x00), (0x10, 0x3C, 0x00), (0x00, 0x42, 0x00), (0x00, 0x3C, 0x14),
    (0x00, 0x32, 0x3E), (0x00, 0x00, 0x00), (0x00, 0x00, 0x00), (0x00, 0x00, 0x00),
    (0xAB, 0xAB, 0xAB), (0x0D, 0x57, 0xFF), (0x4B, 0x30, 0xFF), (0x84, 0x18, 0xE0),
    (0xAE, 0x17, 0xBF), (0xC2, 0x18, 0x5B), (0xC0, 0x26, 0x00), (0x9E, 0x41, 0x00),
    (0x6D, 0x5C, 0x00), (0x38, 0x71, 0x00), (0x0D, 0x7B, 0x00), (0x00, 0x76, 0x2D),
    (0x00, 0x6C, 0x71), (0x00, 0x00, 0x00), (0x00, 0x00, 0x00), (0x00, 0x00, 0x00),
    (0xFF, 0xFF, 0xFF), (0x53, 0xAE, 0xFF), (0x90, 0x85, 0xFF), (0xCB, 0x6D, 0xFF),
    (0xF6, 0x6A, 0xFF), (0xFF, 0x6A, 0xAE), (0xFF, 0x7C, 0x63), (0xE8, 0x95, 0x21),
    (0xBA, 0xAB, 0x00), (0x7C, 0xC7, 0x00), (0x4F, 0xD0, 0x10), (0x30, 0xCB, 0x72),
    (0x38, 0xC1, 0xCC), (0x3C, 0x3C, 0x3C), (0x00, 0x00, 0x00), (0x00, 0x00, 0x00),
    (0xFF, 0xFF, 0xFF), (0xB6, 0xDA, 0xFF), (0xCE, 0xCA, 0xFF), (0xE7, 0xC2, 0xFF),
    (0xFB, 0xC0, 0xFF), (0xFF, 0xC0, 0xDB), (0xFF, 0xC8, 0xB7), (0xF5, 0xD2, 0x9B),
    (0xE0, 0xDD, 0x8D), (0xC5, 0xE9, 0x8B), (0xB0, 0xED, 0x96), (0xA2, 0xEB, 0xB0),
    (0xA4, 0xE6, 0xDB), (0xA8, 0xA8, 0xA8), (0x00, 0x00, 0x00), (0x00, 0x00, 0x00),
];

/// Pixel `p` of the screen, counted row by row, has its three bytes in the buffer.
pub open spec fn pixel_fits(len: nat, p: int) -> bool {
    0 <= p < 61440 && 3 * p + 2 < len
}

/// The colour of pixel `p`.
pub open spec fn rgb_at(fb: Seq<u8>, p: int) -> (u8, u8, u8) {
    (fb[3 * p], fb[3 * p + 1], fb[3 * p + 2])
}

/// Red, green or blue.
pub open spec fn channel(c: (u8, u8, u8), k: int) -> u8 {
    if k == 0 {
        c.0
    } else if k == 1 {
        c.1
    } else {
        c.2
    }
}

/// The picture in which each pixel `p` of colour `c` has the colour `f(p, c)`.
pub open spec fn recolored(
    fb: Seq<u8>,
    f: spec_fn(int, (u8, u8, u8)) -> (u8, u8, u8),
) -> Seq<u8> {
    Seq::new(
        fb.len(),
        |i: int|
            if pixel_fits(fb.len(), i / 3) {
                channel(f(i / 3, rgb_at(fb, i / 3)), i % 3)
            } else {
                fb[i]
            },
    )
}

/// The picture with pixel `p` set, if it fits.
pub open spec fn with_pixel(fb: Seq<u8>, p: int, c: (u8, u8, u8)) -> Seq<u8> {
    if pixel_fits(fb.len(), p) {
        fb.update(3 * p, c.0).update(3 * p + 1, c.1).update(3 * p + 2, c.2)
    } else {
        fb
    }
}

/// Recolouring with functions that agree on every pixel is the same.
proof fn lemma_recolored_same(
    fb: Seq<u8>,
    f: spec_fn(int, (u8, u8, u8)) -> (u8, u8, u8),
    g: spec_fn(int, (u8, u8, u8)) -> (u8, u8, u8),
)
    requires
        forall|p: int| #[trigger] pixel_fits(fb.len(), p) ==> f(p, rgb_at(fb, p)) == g(p, rgb_at(fb, p)),
    ensures
        recolored(fb, f) == recolored(fb, g),
{
    assert(recolored(fb, f) =~= recolored(fb, g));
}

/// Keeping every colour changes nothing.
proof fn lemma_recolored_none(fb: Seq<u8>, f: spec_fn(int, (u8, u8, u8)) -> (u8, u8, u8))
    requires
        forall|p: int| #[trigger] pixel_fits(fb.len(), p) ==> f(p, rgb_at(fb, p)) == rgb_at(fb, p),
    ensures
        recolored(fb, f) == fb,
{
    assert(recolored(fb, f) =~= fb);
}

/// The colour of a pixel after recolouring.
proof fn lemma_recolored_at(
    fb: Seq<u8>,
    f: spec_fn(int, (u8, u8, u8)) -> (u8, u8, u8),
    p: int,
)
    requires
        pixel_fits(fb.len(), p),
    ensures
        rgb_at(recolored(fb, f), p) == f(p, rgb_at(fb, p)),
{
    assert(3 * p / 3 == p && (3 * p + 1) / 3 == p && (3 * p + 2) / 3 == p);
}

/// Setting one more pixel of a picture that is being recoloured.
proof fn lemma_one_more(
    fb: Seq<u8>,
    f: spec_fn(int, (u8, u8, u8)) -> (u8, u8, u8),
    g: spec_fn(int, (u8, u8, u8)) -> (u8, u8, u8),
    p: int,
    c: (u8, u8, u8),
)
    requires
        forall|q: int|
            #[trigger] pixel_fits(fb.len(), q) && q != p ==> f(q, rgb_at(fb, q)) == g(
                q,
                rgb_at(fb, q),
            ),
        pixel_fits(fb.len(), p) ==> g(p, rgb_at(fb, p)) == c,
    ensures
        with_pixel(recolored(fb, f), p, c) == recolored(fb, g),
{
    let a = with_pixel(recolored(fb, f), p, c);
    let b = recolored(fb, g);
    assert forall|i: int| 0 <= i < fb.len() implies a[i] == b[i] by {
        if i / 3 == p {
            assert(i == 3 * p + i % 3);
        } else {
            assert(i != 3 * p && i != 3 * p + 1 && i != 3 * p + 2);
        }
    }
    assert(a =~= b);
}

/// Red, green and blue of a colour number; only its low six bits count.
pub open spec fn color_of(index: u8) -> (u8, u8, u8) {
    NES_PALETTE[index as int % 64]
}

/// The byte at an index, or a default past the end.
pub open spec fn byte_or(s: Seq<u8>, i: int, default: u8) -> u8 {
    if i < s.len() {
        s[i]
    } else {
        default
    }
}

/// The two-bit pixel of a tile: 8 bytes of low bits, then 8 bytes of high bits.
pub open spec fn tile_pixel(chr: Seq<u8>, tile_addr: int, fine_x: int, fine_y: int) -> int {
    (if bits::bit8(byte_or(chr, tile_addr + fine_y, 0), 7 - fine_x) {
        1int
    } else {
        0
    }) + (if bits::bit8(byte_or(chr, tile_addr + fine_y + 8, 0), 7 - fine_x) {
        2int
    } else {
        0
    })
}

/// A position in a row or column of `n`, mirrored if `flip`.
pub open spec fn flipped(flip: bool, i: int, n: int) -> int {
    if flip {
        n - 1 - i
    } else {
        i
    }
}

fn nes_color(index: u8) -> (c: (u8, u8, u8))
    ensures
        c == color_of(index),
{
    NES_PALETTE[(index % 64) as usize]
}

fn get_or(s: &[u8], i: usize, default: u8) -> (b: u8)
    ensures
        b == byte_or(s@, i as int, default),
{
    if i < s.len() {
        s[i]
    } else {
        default
    }
}

/// Writes a colour into the picture at a screen position.
fn put_pixel(fb: &mut [u8], screen_x: usize, screen_y: usize, c: (u8, u8, u8))
    requires
        screen_x < 256,
        screen_y < 240,
    ensures
        final(fb)@ == with_pixel(old(fb)@, screen_y * 256 + screen_x, c),
{
    let offset: usize = (screen_y * SCREEN_WIDTH + screen_x) * 3;
    if offset + 2 < fb.len() {
        fb[offset] = c.0;
        fb[offset + 1] = c.1;
        fb[offset + 2] = c.2;
    }
}

/// The two-bit pixel of a tile.
fn decode_tile_pixel(chr: &[u8], tile_addr: usize, fine_x: usize, fine_y: usize) -> (pixel: u8)
    requires
        fine_x < 8,
        tile_addr + fine_y + 8 <= usize::MAX,
    ensures
        pixel == tile_pixel(chr@, tile_addr as int, fine_x as int, fine_y as int),
        pixel < 4,
{
    let lo: u8 = get_or(chr, tile_addr + fine_y, 0);
    let hi: u8 = get_or(chr, tile_addr + fine_y + 8, 0);
    let bit: u8 = 7 - fine_x as u8;
    bits::bit_at(lo, bit) + 2 * bits::bit_at(hi, bit)
}

/// One row of a tile on the screen.
pub ghost struct TileLine {
    pub chr: Seq<u8>,
    pub tile_addr: int,
    pub pal: Seq<u8>,
    /// Screen column of the row's left end.
    pub x: int,
    /// Screen row.
    pub y: int,
    /// Row of the tile.
    pub fine_y: int,
    pub flip_h: bool,
    /// Drawn only where `back` has this colour, if given.
    pub only_over: Option<(u8, u8, u8)>,
    /// A picture of the same size.
    pub back: Seq<u8>,
}

impl TileLine {
    /// The tile's pixel that column `col` of the row shows.
    pub open spec fn pixel(self, col: int) -> int {
        tile_pixel(self.chr, self.tile_addr, flipped(self.flip_h, col, 8), self.fine_y)
    }

    /// What becomes of screen pixel `p` of colour `c`.
    pub open spec fn over(self, p: int, c: (u8, u8, u8)) -> (u8, u8, u8) {
        let col = p % 256 - self.x;
        if p / 256 == self.y && 0 <= col < 8 && self.pixel(col) != 0 && (self.only_over matches Some(
            b,
        ) ==> rgb_at(self.back, p) == b) {
            color_of(self.pal[self.pixel(col)])
        } else {
            c
        }
    }

    /// The same for the first `n` columns only.
    pub open spec fn partly_over(self, n: int, p: int, c: (u8, u8, u8)) -> (u8, u8, u8) {
        if p % 256 - self.x < n {
            self.over(p, c)
        } else {
            c
        }
    }
}

/// Draws one row of a tile.
fn draw_row(
    fb: &mut [u8],
    chr: &[u8],
    tile_addr: usize,
    pal: &[u8; 4],
    dest_x: i32,
    screen_y: usize,
    fine_y: usize,
    flip_h: bool,
    only_over: Option<(u8, u8, u8)>,
    back: &[u8],
)
    requires
        only_over is Some ==> back@.len() == old(fb)@.len(),
        screen_y < 240,
        fine_y < 8,
        tile_addr + 15 <= usize::MAX,
        -40000 <= dest_x <= 40000,
    ensures
        ({
            let line = TileLine {
                chr: chr@,
                tile_addr: tile_addr as int,
                pal: pal@,
                x: dest_x as int,
                y: screen_y as int,
                fine_y: fine_y as int,
                flip_h,
                only_over,
                back: back@,
            };
            final(fb)@ == recolored(old(fb)@, |p: int, c: (u8, u8, u8)| line.over(p, c))
        }),
{
    let ghost line = TileLine {
        chr: chr@,
        tile_addr: tile_addr as int,
        pal: pal@,
        x: dest_x as int,
        y: screen_y as int,
        fine_y: fine_y as int,
        flip_h,
        only_over,
        back: back@,
    };
    let ghost whole = |p: int, c: (u8, u8, u8)| line.over(p, c);
    proof {
        lemma_recolored_none(fb@, |p: int, c: (u8, u8, u8)| line.partly_over(0, p, c));
    }
    let mut col: usize = 0;
    while col < 8
        invariant
            col <= 8,
            screen_y < 240,
            fine_y < 8,
            tile_addr + 15 <= usize::MAX,
            -40000 <= dest_x <= 40000,
            line == (TileLine {
                chr: chr@,
                tile_addr: tile_addr as int,
                pal: pal@,
                x: dest_x as int,
                y: screen_y as int,
                fine_y: fine_y as int,
                flip_h,
                only_over,
                back: back@,
            }),
            only_over is Some ==> back@.len() == fb@.len(),
            fb@.len() == old(fb)@.len(),
            fb@ == recolored(
                old(fb)@,
                |p: int, c: (u8, u8, u8)| line.partly_over(col as int, p, c),
            ),
        decreases 8 - col,
    {
        let screen_x: i32 = dest_x + col as i32;
        let fine_x: usize = if flip_h {
            7 - col
        } else {
            col
        };
        let pixel: u8 = decode_tile_pixel(chr, tile_addr, fine_x, fine_y);
        let ghost done = |p: int, c: (u8, u8, u8)| line.partly_over(col as int, p, c);
        let ghost next = |p: int, c: (u8, u8, u8)| line.partly_over(col + 1, p, c);
        if pixel == 0 || screen_x < 0 || screen_x >= 256 {
            proof {
                lemma_recolored_same(old(fb)@, done, next);
            }
        } else {
            let sx: usize = screen_x as usize;
            let ghost p = screen_y * 256 + sx;
            let shows: bool = match only_over {
                Some(b) => shows_color(back, sx, screen_y, b),
                None => true,
            };
            proof {
                if pixel_fits(fb@.len(), p) {
                    lemma_recolored_at(old(fb)@, done, p);
                }
            }
            if shows {
                let c: (u8, u8, u8) = nes_color(pal[pixel as usize]);
                proof {
                    lemma_one_more(old(fb)@, done, next, p, c);
                }
                put_pixel(fb, sx, screen_y, c);
            } else {
                proof {
                    lemma_recolored_same(old(fb)@, done, next);
                }
            }
        }
        col = col + 1;
    }
    proof {
        lemma_recolored_same(
            old(fb)@,
            |p: int, c: (u8, u8, u8)| line.partly_over(8, p, c),
            whole,
        );
    }
}

/// Whether a pixel has a colour. Pixels outside the buffer count as having it.
fn shows_color(fb: &[u8], x: usize, y: usize, c: (u8, u8, u8)) -> (shows: bool)
    requires
        x < 256,
        y < 240,
    ensures
        shows == (pixel_fits(fb@.len(), y * 256 + x) ==> rgb_at(fb@, y * 256 + x) == c),
{
    let offset: usize = (y * SCREEN_WIDTH + x) * 3;
    if offset + 2 < fb.len() {
        fb[offset] == c.0 && fb[offset + 1] == c.1 && fb[offset + 2] == c.2
    } else {
        true
    }
}

/// What an 8x8 tile at (`x`, `y`) makes of screen pixel `p` of colour `c`. Pixel value 0
/// is transparent.
pub open spec fn tile_over(
    chr: Seq<u8>,
    tile_addr: int,
    pal: Seq<u8>,
    x: int,
    y: int,
    flip_h: bool,
    flip_v: bool,
    p: int,
    c: (u8, u8, u8),
) -> (u8, u8, u8) {
    let col = p % 256 - x;
    let row = p / 256 - y;
    let pixel = tile_pixel(chr, tile_addr, flipped(flip_h, col, 8), flipped(flip_v, row, 8));
    if 0 <= col < 8 && 0 <= row < 8 && pixel != 0 {
        color_of(pal[pixel])
    } else {
        c
    }
}

/// Draws an 8x8 tile at a screen position. Pixel value 0 is transparent.
pub fn draw_tile(
    fb: &mut [u8],
    chr: &[u8],
    tile_addr: usize,
    pal: &[u8; 4],
    dest_x: i16,
    dest_y: i16,
    flip_h: bool,
    flip_v: bool,
)
    requires
        tile_addr + 15 <= usize::MAX,
    ensures
        final(fb)@ == recolored(
            old(fb)@,
            |p: int, c: (u8, u8, u8)|
                tile_over(
                    chr@,
                    tile_addr as int,
                    pal@,
                    dest_x as int,
                    dest_y as int,
                    flip_h,
                    flip_v,
                    p,
                    c,
                ),
        ),
{
    let ghost over = |p: int, c: (u8, u8, u8)|
        tile_over(
            chr@,
            tile_addr as int,
            pal@,
            dest_x as int,
            dest_y as int,
            flip_h,
            flip_v,
            p,
            c,
        );
    proof {
        lemma_recolored_none(fb@, rows_over(over, dest_y as int, 0));
    }
    let nothing: [u8; 0] = [];
    let mut row: usize = 0;
    while row < 8
        invariant
            row <= 8,
            tile_addr + 15 <= usize::MAX,
            over == (|p: int, c: (u8, u8, u8)|
                tile_over(
                    chr@,
                    tile_addr as int,
                    pal@,
                    dest_x as int,
                    dest_y as int,
                    flip_h,
                    flip_v,
                    p,
                    c,
                )),
            fb@ == recolored(old(fb)@, rows_over(over, dest_y as int, row as int)),
        decreases 8 - row,
    {
        let screen_y: i32 = dest_y as i32 + row as i32;
        let ghost done = rows_over(over, dest_y as int, row as int);
        let ghost next = rows_over(over, dest_y as int, row + 1);
        if screen_y < 0 || screen_y >= 240 {
            proof {
                lemma_recolored_same(old(fb)@, done, next);
            }
        } else {
            let fine_y: usize = if flip_v {
                7 - row
            } else {
                row
            };
            let ghost line = TileLine {
                chr: chr@,
                tile_addr: tile_addr as int,
                pal: pal@,
                x: dest_x as int,
                y: screen_y as int,
                fine_y: fine_y as int,
                flip_h,
                only_over: None,
                back: Seq::empty(),
            };
            draw_row(
                fb,
                chr,
                tile_addr,
                pal,
                dest_x as i32,
                screen_y as usize,
                fine_y,
                flip_h,
                None,
                nothing.as_slice(),
            );
            assert(nothing@ =~= Seq::empty());
            proof {
                lemma_recolored_twice(
                    old(fb)@,
                    done,
                    |p: int, c: (u8, u8, u8)| line.over(p, c),
                    next,
                );
            }
        }
        row = row + 1;
    }
    proof {
        lemma_recolored_same(old(fb)@, rows_over(over, dest_y as int, 8), over);
    }
}

/// A recolouring, restricted to the screen rows before `top + n`.
pub open spec fn rows_over(
    f: spec_fn(int, (u8, u8, u8)) -> (u8, u8, u8),
    top: int,
    n: int,
) -> spec_fn(int, (u8, u8, u8)) -> (u8, u8, u8) {
    |p: int, c: (u8, u8, u8)|
        if p / 256 < top + n {
            f(p, c)
        } else {
            c
        }
}

/// Two recolourings in a row.
proof fn lemma_recolored_twice(
    fb: Seq<u8>,
    f: spec_fn(int, (u8, u8, u8)) -> (u8, u8, u8),
    g: spec_fn(int, (u8, u8, u8)) -> (u8, u8, u8),
    both: spec_fn(int, (u8, u8, u8)) -> (u8, u8, u8),
)
    requires
        forall|p: int|
            #[trigger] pixel_fits(fb.len(), p) ==> both(p, rgb_at(fb, p)) == g(
                p,
                f(p, rgb_at(fb, p)),
            ),
    ensures
        recolored(recolored(fb, f), g) == recolored(fb, both),
{
    let a = recolored(recolored(fb, f), g);
    let b = recolored(fb, both);
    assert forall|i: int| 0 <= i < fb.len() implies a[i] == b[i] by {
        if pixel_fits(fb.len(), i / 3) {
            lemma_recolored_at(fb, f, i / 3);
        }
    }
    assert(a =~= b);
}

/// What the background is drawn from.
pub ghost struct Backdrop {
    pub chr: Seq<u8>,
    /// Two nametables of 1024 bytes.
    pub nametable: Seq<u8>,
    pub palette: Seq<u8>,
    pub scroll_x: int,
    pub scroll_y: int,
    /// Address of the pattern table.
    pub base: int,
}

impl Backdrop {
    /// Where the nametable that shows at column `x` and row `y` begins. Past its edges
    /// comes the other nametable.
    pub open spec fn table(self, x: int, y: int) -> int {
        ((self.scroll_x + x) % 512 / 256 + (self.scroll_y + y) % 480 / 240) % 2 * 1024
    }

    /// Tile column inside that nametable.
    pub open spec fn column(self, x: int) -> int {
        (self.scroll_x + x) % 256 / 8
    }

    /// Tile row inside that nametable.
    pub open spec fn row(self, y: int) -> int {
        (self.scroll_y + y) % 240 / 8
    }

    /// The two-bit pixel at column `x` and row `y`.
    pub open spec fn pixel(self, x: int, y: int) -> int {
        let tile = byte_or(self.nametable, self.table(x, y) + self.row(y) * 32 + self.column(x), 0);
        tile_pixel(
            self.chr,
            self.base + tile * 16,
            (self.scroll_x + x) % 8,
            (self.scroll_y + y) % 8,
        )
    }

    /// The palette at column `x` and row `y`.
    pub open spec fn group(self, x: int, y: int) -> int {
        let attr = byte_or(
            self.nametable,
            self.table(x, y) + 960 + self.row(y) / 4 * 8 + self.column(x) / 4,
            0,
        );
        attr as int / bits::weight(self.row(y) / 2 % 2 * 4 + self.column(x) / 2 % 2 * 2) % 4
    }

    /// The colour at column `x` and row `y`. Pixel value 0 shows the first colour of
    /// the palette.
    pub open spec fn color(self, x: int, y: int) -> (u8, u8, u8) {
        color_of(
            byte_or(
                self.palette,
                if self.pixel(x, y) == 0 {
                    0
                } else {
                    self.group(x, y) * 4 + self.pixel(x, y)
                },
                0x0F,
            ),
        )
    }
}

/// Two bits of an attribute byte.
pub fn attribute_group(attr: u8, right: bool, below: bool) -> (group: u8)
    ensures
        group == attr as int / bits::weight(
            (if below {
                4int
            } else {
                0
            }) + (if right {
                2int
            } else {
                0
            }),
        ) % 4,
        group < 4,
{
    if below {
        if right {
            attr / 64 % 4
        } else {
            attr / 16 % 4
        }
    } else if right {
        attr / 4 % 4
    } else {
        attr % 4
    }
}

/// The background's colour at a screen position.
fn background_color(
    chr: &[u8],
    nametable: &[u8],
    palette: &[u8],
    scroll_x: u16,
    scroll_y: u16,
    bg_pattern_base: usize,
    screen_x: usize,
    screen_y: usize,
) -> (c: (u8, u8, u8))
    requires
        bg_pattern_base <= 0x1000,
        screen_x < 256,
        screen_y < 240,
    ensures
        c == (Backdrop {
            chr: chr@,
            nametable: nametable@,
            palette: palette@,
            scroll_x: scroll_x as int,
            scroll_y: scroll_y as int,
            base: bg_pattern_base as int,
        }).color(screen_x as int, screen_y as int),
{
    let ghost b = Backdrop {
        chr: chr@,
        nametable: nametable@,
        palette: palette@,
        scroll_x: scroll_x as int,
        scroll_y: scroll_y as int,
        base: bg_pattern_base as int,
    };
    let effective_x: usize = (scroll_x as usize + screen_x) % 512;
    let effective_y: usize = (scroll_y as usize + screen_y) % 480;
    let nt_base: usize = (effective_x / 256 + effective_y / 240) % 2 * 1024;
    let column: usize = effective_x % 256 / 8;
    let row: usize = effective_y % 240 / 8;
    proof {
        assert(effective_x % 256 == (scroll_x + screen_x) % 256);
        assert(effective_y % 240 == (scroll_y + screen_y) % 240);
        assert(effective_x % 8 == (scroll_x + screen_x) % 8);
        assert(effective_y % 8 == (scroll_y + screen_y) % 8);
        assert(nt_base == b.table(screen_x as int, screen_y as int));
        assert(column == b.column(screen_x as int));
        assert(row == b.row(screen_y as int));
    }
    let tile: u8 = get_or(nametable, nt_base + row * 32 + column, 0);
    let pixel: u8 = decode_tile_pixel(
        chr,
        bg_pattern_base + tile as usize * 16,
        effective_x % 8,
        effective_y % 8,
    );
    let attr: u8 = get_or(nametable, nt_base + 960 + row / 4 * 8 + column / 4, 0);
    let group: u8 = attribute_group(attr, column / 2 % 2 == 1, row / 2 % 2 == 1);
    let slot: usize = if pixel == 0 {
        0
    } else {
        group as usize * 4 + pixel as usize
    };
    nes_color(get_or(palette, slot, 0x0F))
}

/// Draws one row of the background.
fn render_scanline(
    fb: &mut [u8],
    chr: &[u8],
    nametable: &[u8],
    palette: &[u8],
    scroll_x: u16,
    scroll_y: u16,
    bg_pattern_base: usize,
    screen_y: usize,
)
    requires
        bg_pattern_base <= 0x1000,
        screen_y < 240,
    ensures
        ({
            let b = Backdrop {
                chr: chr@,
                nametable: nametable@,
                palette: palette@,
                scroll_x: scroll_x as int,
                scroll_y: scroll_y as int,
                base: bg_pattern_base as int,
            };
            final(fb)@ == recolored(
                old(fb)@,
                |p: int, c: (u8, u8, u8)|
                    if p / 256 == screen_y {
                        b.color(p % 256, p / 256)
                    } else {
                        c
                    },
            )
        }),
{
    let ghost b = Backdrop {
        chr: chr@,
        nametable: nametable@,
        palette: palette@,
        scroll_x: scroll_x as int,
        scroll_y: scroll_y as int,
        base: bg_pattern_base as int,
    };
    let ghost whole = |p: int, c: (u8, u8, u8)|
        if p / 256 == screen_y {
            b.color(p % 256, p / 256)
        } else {
            c
        };
    proof {
        lemma_recolored_none(fb@, columns_over(whole, 0));
    }
    let mut screen_x: usize = 0;
    while screen_x < 256
        invariant
            screen_x <= 256,
            screen_y < 240,
            bg_pattern_base <= 0x1000,
            b == (Backdrop {
                chr: chr@,
                nametable: nametable@,
                palette: palette@,
                scroll_x: scroll_x as int,
                scroll_y: scroll_y as int,
                base: bg_pattern_base as int,
            }),
            whole == (|p: int, c: (u8, u8, u8)|
                if p / 256 == screen_y {
                    b.color(p % 256, p / 256)
                } else {
                    c
                }),
            fb@ == recolored(old(fb)@, columns_over(whole, screen_x as int)),
        decreases 256 - screen_x,
    {
        let c: (u8, u8, u8) = background_color(
            chr,
            nametable,
            palette,
            scroll_x,
            scroll_y,
            bg_pattern_base,
            screen_x,
            screen_y,
        );
        proof {
            lemma_one_more(
                old(fb)@,
                columns_over(whole, screen_x as int),
                columns_over(whole, screen_x + 1),
                screen_y * 256 + screen_x,
                c,
            );
        }
        put_pixel(fb, screen_x, screen_y, c);
        screen_x = screen_x + 1;
    }
    proof {
        lemma_recolored_same(old(fb)@, columns_over(whole, 256), whole);
    }
}

/// A recolouring, restricted to the first `n` screen columns.
pub open spec fn columns_over(
    f: spec_fn(int, (u8, u8, u8)) -> (u8, u8, u8),
    n: int,
) -> spec_fn(int, (u8, u8, u8)) -> (u8, u8, u8) {
    |p: int, c: (u8, u8, u8)|
        if p % 256 < n {
            f(p, c)
        } else {
            c
        }
}

/// The background's colour of screen pixel `p`: where the background is off, the first
/// colour of the palette.
pub open spec fn background_of(
    chr: Seq<u8>,
    nametable: Seq<u8>,
    palette: Seq<u8>,
    scroll_x: u16,
    scroll_y: u16,
    ctrl: u8,
    mask: u8,
    p: int,
) -> (u8, u8, u8) {
    if bits::bit8(mask, 3) {
        (Backdrop {
            chr,
            nametable,
            palette,
            scroll_x: scroll_x as int,
            scroll_y: scroll_y as int,
            base: if bits::bit8(ctrl, 4) {
                0x1000
            } else {
                0
            },
        }).color(p % 256, p / 256)
    } else {
        color_of(byte_or(palette, 0, 0x0F))
    }
}

/// Draws the whole background.
pub fn render_background(
    fb: &mut [u8],
    chr: &[u8],
    nametable: &[u8],
    palette: &[u8],
    scroll_x: u16,
    scroll_y: u16,
    ctrl: u8,
    mask: u8,
)
    ensures
        final(fb)@ == recolored(
            old(fb)@,
            |p: int, c: (u8, u8, u8)|
                background_of(chr@, nametable@, palette@, scroll_x, scroll_y, ctrl, mask, p),
        ),
{
    proof {
        bits::lemma_bit8(mask);
        bits::lemma_bit8(ctrl);
    }
    let ghost whole = |p: int, c: (u8, u8, u8)|
        background_of(chr@, nametable@, palette@, scroll_x, scroll_y, ctrl, mask, p);
    let base: usize = if ctrl & 0x10 != 0 {
        0x1000
    } else {
        0
    };
    let shown: bool = mask & 0x08 != 0;
    let plain: (u8, u8, u8) = nes_color(get_or(palette, 0, 0x0F));
    let ghost b = Backdrop {
        chr: chr@,
        nametable: nametable@,
        palette: palette@,
        scroll_x: scroll_x as int,
        scroll_y: scroll_y as int,
        base: base as int,
    };
    proof {
        lemma_recolored_none(fb@, rows_over(whole, 0, 0));
    }
    let mut y: usize = 0;
    while y < 240
        invariant
            y <= 240,
            base <= 0x1000,
            base == (if bits::bit8(ctrl, 4) {
                0x1000int
            } else {
                0
            }),
            shown == bits::bit8(mask, 3),
            plain == color_of(byte_or(palette@, 0, 0x0F)),
            b == (Backdrop {
                chr: chr@,
                nametable: nametable@,
                palette: palette@,
                scroll_x: scroll_x as int,
                scroll_y: scroll_y as int,
                base: base as int,
            }),
            whole == (|p: int, c: (u8, u8, u8)|
                background_of(chr@, nametable@, palette@, scroll_x, scroll_y, ctrl, mask, p)),
            fb@ == recolored(old(fb)@, rows_over(whole, 0, y as int)),
        decreases 240 - y,
    {
        let ghost done = rows_over(whole, 0, y as int);
        let ghost next = rows_over(whole, 0, y + 1);
        if shown {
            render_scanline(fb, chr, nametable, palette, scroll_x, scroll_y, base, y);
            proof {
                let line = |p: int, c: (u8, u8, u8)|
                    if p / 256 == y {
                        b.color(p % 256, p / 256)
                    } else {
                        c
                    };
                lemma_recolored_twice(old(fb)@, done, line, next);
            }
        } else {
            fill_row(fb, y, plain);
            proof {
                let line = |p: int, c: (u8, u8, u8)|
                    if p / 256 == y {
                        plain
                    } else {
                        c
                    };
                lemma_recolored_twice(old(fb)@, done, line, next);
            }
        }
        y = y + 1;
    }
    proof {
        lemma_recolored_same(old(fb)@, rows_over(whole, 0, 240), whole);
    }
}

/// Gives one row of the screen a single colour.
fn fill_row(fb: &mut [u8], y: usize, plain: (u8, u8, u8))
    requires
        y < 240,
    ensures
        final(fb)@ == recolored(
            old(fb)@,
            |p: int, c: (u8, u8, u8)|
                if p / 256 == y {
                    plain
                } else {
                    c
                },
        ),
{
    let ghost whole = |p: int, c: (u8, u8, u8)|
        if p / 256 == y {
            plain
        } else {
            c
        };
    proof {
        lemma_recolored_none(fb@, columns_over(whole, 0));
    }
    let mut x: usize = 0;
    while x < 256
        invariant
            x <= 256,
            y < 240,
            whole == (|p: int, c: (u8, u8, u8)|
                if p / 256 == y {
                    plain
                } else {
                    c
                }),
            fb@ == recolored(old(fb)@, columns_over(whole, x as int)),
        decreases 256 - x,
    {
        proof {
            lemma_one_more(
                old(fb)@,
                columns_over(whole, x as int),
                columns_over(whole, x + 1),
                y * 256 + x,
                plain,
            );
        }
        put_pixel(fb, x, y, plain);
        x = x + 1;
    }
    proof {
        lemma_recolored_same(old(fb)@, columns_over(whole, 256), whole);
    }
}

/// The sprite layer's settings.
pub ghost struct SpriteLayer {
    pub chr: Seq<u8>,
    pub palette: Seq<u8>,
    pub ctrl: u8,
}

impl SpriteLayer {
    pub open spec fn tall(self) -> bool {
        bits::bit8(self.ctrl, 5)
    }

    pub open spec fn height(self) -> int {
        if self.tall() {
            16
        } else {
            8
        }
    }

    /// Pattern address of the tile that row `row` of a sprite shows: tall sprites take
    /// their pattern table from bit 0 of the tile number and span two tiles.
    pub open spec fn tile_address(self, tile: u8, row: int) -> int {
        if self.tall() {
            tile % 2 * 0x1000 + (tile / 2 * 2 + row / 8) * 16
        } else {
            (if bits::bit8(self.ctrl, 3) {
                0x1000int
            } else {
                0
            }) + tile * 16
        }
    }

    /// What a sprite (row, tile, attributes, column) makes of screen pixel `p` of colour
    /// `c`, where the picture without sprites has the colour `back`. It appears one row
    /// below its stated row. A sprite behind the background is drawn only where the
    /// background has the first colour of the palette.
    pub open spec fn over(
        self,
        sp: (u8, u8, u8, u8),
        p: int,
        back: (u8, u8, u8),
        c: (u8, u8, u8),
    ) -> (u8, u8, u8) {
        if self.shows(sp, p, back) {
            color_of(byte_or(self.palette, (sp.2 % 4 + 4) * 4 + self.pixel(sp, p), 0x0F))
        } else {
            c
        }
    }

    /// The two-bit pixel of the sprite's tile that screen pixel `p` shows.
    pub open spec fn pixel(self, sp: (u8, u8, u8, u8), p: int) -> int {
        let col = p % 256 - sp.3;
        let down = p / 256 - (sp.0 + 1);
        let row = flipped(bits::bit8(sp.2, 7), down, self.height());
        tile_pixel(
            self.chr,
            self.tile_address(sp.1, row),
            flipped(bits::bit8(sp.2, 6), col, 8),
            row % 8,
        )
    }

    /// The sprite is opaque at screen pixel `p` and, if it lies behind the background, the
    /// background is not.
    pub open spec fn shows(self, sp: (u8, u8, u8, u8), p: int, back: (u8, u8, u8)) -> bool {
        &&& 0 <= p % 256 - sp.3 < 8
        &&& 0 <= p / 256 - (sp.0 + 1) < self.height()
        &&& self.pixel(sp, p) != 0
        &&& bits::bit8(sp.2, 5) ==> back == color_of(byte_or(self.palette, 0, 0x0F))
    }

    /// What the sprites from `from` on make of screen pixel `p`, where the picture without
    /// sprites has the colour `back`: earlier ones lie on top.
    pub open spec fn all_over(
        self,
        sprites: Seq<(u8, u8, u8, u8)>,
        from: int,
        p: int,
        back: (u8, u8, u8),
    ) -> (u8, u8, u8)
        decreases sprites.len() - from,
    {
        if from >= sprites.len() {
            back
        } else {
            self.over(sprites[from], p, back, self.all_over(sprites, from + 1, p, back))
        }
    }
}

/// Draws one sprite; `back` is the picture without sprites.
fn draw_sprite(
    fb: &mut [u8],
    back: &[u8],
    chr: &[u8],
    sp: (u8, u8, u8, u8),
    palette: &[u8],
    ctrl: u8,
)
    requires
        back@.len() == old(fb)@.len(),
    ensures
        ({
            let layer = SpriteLayer { chr: chr@, palette: palette@, ctrl };
            final(fb)@ == recolored(
                old(fb)@,
                |p: int, c: (u8, u8, u8)| layer.over(sp, p, rgb_at(back@, p), c),
            )
        }),
{
    let ghost layer = SpriteLayer { chr: chr@, palette: palette@, ctrl };
    let ghost over = |p: int, c: (u8, u8, u8)| layer.over(sp, p, rgb_at(back@, p), c);
    proof {
        bits::lemma_bit8(ctrl);
        bits::lemma_bit8(sp.2);
    }
    let top: usize = sp.0 as usize + 1;
    let tall: bool = ctrl & 0x20 != 0;
    let high_table: bool = ctrl & 0x08 != 0;
    let flip_h: bool = sp.2 & 0x40 != 0;
    let flip_v: bool = sp.2 & 0x80 != 0;
    let group: usize = (sp.2 % 4) as usize + 4;
    let pal: [u8; 4] = [
        0,
        get_or(palette, group * 4 + 1, 0x0F),
        get_or(palette, group * 4 + 2, 0x0F),
        get_or(palette, group * 4 + 3, 0x0F),
    ];
    let only_over: Option<(u8, u8, u8)> = if sp.2 & 0x20 != 0 {
        Some(nes_color(get_or(palette, 0, 0x0F)))
    } else {
        None
    };
    let rows: usize = if tall {
        16
    } else {
        8
    };
    proof {
        lemma_recolored_none(fb@, rows_over(over, top as int, 0));
    }
    let mut down: usize = 0;
    while down < rows
        invariant
            down <= rows,
            rows == layer.height(),
            top == sp.0 + 1,
            tall == layer.tall(),
            high_table == bits::bit8(ctrl, 3),
            flip_h == bits::bit8(sp.2, 6),
            flip_v == bits::bit8(sp.2, 7),
            layer == (SpriteLayer { chr: chr@, palette: palette@, ctrl }),
            over == (|p: int, c: (u8, u8, u8)| layer.over(sp, p, rgb_at(back@, p), c)),
            back@.len() == fb@.len(),
            fb@.len() == old(fb)@.len(),
            forall|k: int|
                1 <= k < 4 ==> #[trigger] pal@[k] == byte_or(
                    palette@,
                    (sp.2 % 4 + 4) * 4 + k,
                    0x0F,
                ),
            only_over == (if bits::bit8(sp.2, 5) {
                Some(color_of(byte_or(palette@, 0, 0x0F)))
            } else {
                None
            }),
            fb@ == recolored(old(fb)@, rows_over(over, top as int, down as int)),
        decreases rows - down,
    {
        let screen_y: usize = top + down;
        let ghost done = rows_over(over, top as int, down as int);
        let ghost next = rows_over(over, top as int, down + 1);
        if screen_y >= 240 {
            proof {
                lemma_recolored_same(old(fb)@, done, next);
            }
        } else {
            let row: usize = if flip_v {
                rows - 1 - down
            } else {
                down
            };
            let tile_addr: usize = sprite_tile_address(sp.1, tall, high_table, row);
            let ghost line = TileLine {
                chr: chr@,
                tile_addr: tile_addr as int,
                pal: pal@,
                x: sp.3 as int,
                y: screen_y as int,
                fine_y: (row % 8) as int,
                flip_h,
                only_over,
                back: back@,
            };
            draw_row(
                fb,
                chr,
                tile_addr,
                &pal,
                sp.3 as i32,
                screen_y,
                row % 8,
                flip_h,
                only_over,
                back,
            );
            proof {
                lemma_recolored_twice(
                    old(fb)@,
                    done,
                    |p: int, c: (u8, u8, u8)| line.over(p, c),
                    next,
                );
            }
        }
        down = down + 1;
    }
    proof {
        lemma_recolored_same(old(fb)@, rows_over(over, top as int, rows as int), over);
    }
}

/// Pattern address of the tile that a sprite's row shows.
pub fn sprite_tile_address(tile: u8, tall: bool, high_table: bool, row: usize) -> (addr: usize)
    requires
        row < 16,
    ensures
        addr == (if tall {
            tile % 2 * 0x1000 + (tile / 2 * 2 + row / 8) * 16
        } else {
            (if high_table {
                0x1000int
            } else {
                0
            }) + tile * 16
        }),
        addr <= 0x2000,
{
    if tall {
        (tile % 2) as usize * 0x1000 + ((tile / 2 * 2) as usize + row / 8) * 16
    } else if high_table {
        0x1000 + tile as usize * 16
    } else {
        tile as usize * 16
    }
}

/// Draws the sprites (row, tile, attributes, column) over the picture, unless they are
/// switched off. Earlier sprites lie on top of later ones; those behind the background
/// show where the picture had the first colour of the palette.
pub fn render_sprites(
    fb: &mut [u8],
    chr: &[u8],
    sprites: &[(u8, u8, u8, u8)],
    palette: &[u8],
    ctrl: u8,
    mask: u8,
)
    ensures
        final(fb)@ == (if bits::bit8(mask, 4) {
            let layer = SpriteLayer { chr: chr@, palette: palette@, ctrl };
            recolored(
                old(fb)@,
                |p: int, c: (u8, u8, u8)| layer.all_over(sprites@, 0, p, c),
            )
        } else {
            old(fb)@
        }),
{
    proof {
        bits::lemma_bit8(mask);
    }
    if mask & 0x10 == 0 {
        return;
    }
    let ghost layer = SpriteLayer { chr: chr@, palette: palette@, ctrl };
    let back: Vec<u8> = slice_to_vec(fb);
    let mut i: usize = sprites.len();
    proof {
        lemma_recolored_none(
            fb@,
            |p: int, c: (u8, u8, u8)| layer.all_over(sprites@, i as int, p, c),
        );
    }
    while i > 0
        invariant
            i <= sprites@.len(),
            layer == (SpriteLayer { chr: chr@, palette: palette@, ctrl }),
            back@ == old(fb)@,
            fb@ == recolored(
                old(fb)@,
                |p: int, c: (u8, u8, u8)| layer.all_over(sprites@, i as int, p, c),
            ),
        decreases i,
    {
        let ghost done = |p: int, c: (u8, u8, u8)| layer.all_over(sprites@, i as int, p, c);
        i = i - 1;
        let sp: (u8, u8, u8, u8) = sprites[i];
        draw_sprite(fb, back.as_slice(), chr, sp, palette, ctrl);
        proof {
            lemma_recolored_twice(
                old(fb)@,
                done,
                |p: int, c: (u8, u8, u8)| layer.over(sp, p, rgb_at(back@, p), c),
                |p: int, c: (u8, u8, u8)| layer.all_over(sprites@, i as int, p, c),
            );
        }
    }
}

/// The colour of screen pixel `p` in a complete picture: the background, and the sprites
/// over it.
pub open spec fn frame_color(
    chr: Seq<u8>,
    nametable: Seq<u8>,
    palette: Seq<u8>,
    sprites: Seq<(u8, u8, u8, u8)>,
    scroll_x: u16,
    scroll_y: u16,
    ctrl: u8,
    mask: u8,
    p: int,
) -> (u8, u8, u8) {
    let back = background_of(chr, nametable, palette, scroll_x, scroll_y, ctrl, mask, p);
    if bits::bit8(mask, 4) {
        (SpriteLayer { chr, palette, ctrl }).all_over(sprites, 0, p, back)
    } else {
        back
    }
}

/// Draws a complete picture: the background first, then the sprites.
pub fn render_frame(
    fb: &mut [u8],
    chr: &[u8],
    nametable: &[u8],
    palette: &[u8],
    sprites: &[(u8, u8, u8, u8)],
    scroll_x: u16,
    scroll_y: u16,
    ctrl: u8,
    mask: u8,
)
    ensures
        final(fb)@ == recolored(
            old(fb)@,
            |p: int, c: (u8, u8, u8)|
                frame_color(
                    chr@,
                    nametable@,
                    palette@,
                    sprites@,
                    scroll_x,
                    scroll_y,
                    ctrl,
                    mask,
                    p,
                ),
        ),
{
    let ghost whole = |p: int, c: (u8, u8, u8)|
        frame_color(chr@, nametable@, palette@, sprites@, scroll_x, scroll_y, ctrl, mask, p);
    let ghost back = |p: int, c: (u8, u8, u8)|
        background_of(chr@, nametable@, palette@, scroll_x, scroll_y, ctrl, mask, p);
    render_background(fb, chr, nametable, palette, scroll_x, scroll_y, ctrl, mask);
    render_sprites(fb, chr, sprites, palette, ctrl, mask);
    proof {
        if bits::bit8(mask, 4) {
            let layer = SpriteLayer { chr: chr@, palette: palette@, ctrl };
            lemma_recolored_twice(
                old(fb)@,
                back,
                |p: int, c: (u8, u8, u8)| layer.all_over(sprites@, 0, p, c),
                whole,
            );
        } else {
            lemma_recolored_same(old(fb)@, back, whole);
        }
    }
}

/// A handle for callers that keep a renderer; the functions above do the drawing.
pub struct Renderer;

impl Renderer {
    pub fn new() -> (r: Renderer)
        ensures
            r == Renderer,
    {
        Renderer
    }

    /// The picture is complete when this is called; nothing is left to draw.
    pub fn render(&self, _framebuffer: &[u8]) {
    }
}

/// The first sprite that shows at a pixel covers everything after it in the list, whether
/// it lies in front of the background or behind it.
pub proof fn first_sprite_wins(
    layer: SpriteLayer,
    sprites: Seq<(u8, u8, u8, u8)>,
    first: int,
    p: int,
    back: (u8, u8, u8),
)
    requires
        0 <= first < sprites.len(),
        layer.shows(sprites[first], p, back),
        forall|i: int| 0 <= i < first ==> !layer.shows(#[trigger] sprites[i], p, back),
    ensures
        layer.all_over(sprites, 0, p, back) == color_of(
            byte_or(
                layer.palette,
                (sprites[first].2 % 4 + 4) * 4 + layer.pixel(sprites[first], p),
                0x0F,
            ),
        ),
{
    lemma_first_shows(layer, sprites, 0, first, p, back);
}

/// Sprites that do not show change nothing.
proof fn lemma_first_shows(
    layer: SpriteLayer,
    sprites: Seq<(u8, u8, u8, u8)>,
    from: int,
    first: int,
    p: int,
    back: (u8, u8, u8),
)
    requires
        0 <= from <= first < sprites.len(),
        forall|i: int| from <= i < first ==> !layer.shows(#[trigger] sprites[i], p, back),
    ensures
        layer.all_over(sprites, from, p, back) == layer.all_over(sprites, first, p, back),
    decreases first - from,
{
    if from < first {
        lemma_first_shows(layer, sprites, from + 1, first, p, back);
    }
}

proof fn lemma_transparent(chr: Seq<u8>, tile_addr: int, fine_x: int, fine_y: int)
    requires
        0 <= tile_addr,
        forall|i: int| tile_addr <= i < tile_addr + 16 && i < chr.len() ==> chr[i] == 0,
        0 <= fine_x < 8,
        0 <= fine_y < 8,
    ensures
        tile_pixel(chr, tile_addr, fine_x, fine_y) == 0,
{
    assert(byte_or(chr, tile_addr + fine_y, 0) == 0);
    assert(byte_or(chr, tile_addr + fine_y + 8, 0) == 0);
}

/// A transparent tile leaves the picture as it is.
pub proof fn transparent_tile_draws_nothing(
    fb: Seq<u8>,
    chr: Seq<u8>,
    tile_addr: int,
    pal: Seq<u8>,
    x: int,
    y: int,
    flip_h: bool,
    flip_v: bool,
)
    requires
        0 <= tile_addr,
        forall|i: int| tile_addr <= i < tile_addr + 16 && i < chr.len() ==> chr[i] == 0,
    ensures
        recolored(
            fb,
            |p: int, c: (u8, u8, u8)| tile_over(chr, tile_addr, pal, x, y, flip_h, flip_v, p, c),
        ) == fb,
{
    assert forall|p: int, c: (u8, u8, u8)| #[trigger]
        tile_over(chr, tile_addr, pal, x, y, flip_h, flip_v, p, c) == c by {
        let col = p % 256 - x;
        let row = p / 256 - y;
        if 0 <= col < 8 && 0 <= row < 8 {
            lemma_transparent(chr, tile_addr, flipped(flip_h, col, 8), flipped(flip_v, row, 8));
        }
    }
    lemma_recolored_none(
        fb,
        |p: int, c: (u8, u8, u8)| tile_over(chr, tile_addr, pal, x, y, flip_h, flip_v, p, c),
    );
}

/// Drawing the same picture twice changes nothing.
pub proof fn redrawing_changes_nothing(
    fb: Seq<u8>,
    color: spec_fn(int) -> (u8, u8, u8),
)
    ensures
        ({
            let f = |p: int, c: (u8, u8, u8)| color(p);
            recolored(recolored(fb, f), f) == recolored(fb, f)
        }),
{
    let f = |p: int, c: (u8, u8, u8)| color(p);
    lemma_recolored_twice(fb, f, f, f);
}

} // verus!

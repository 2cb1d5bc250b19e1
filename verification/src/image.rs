//! Pictures as files and as terminal output.

use vstd::prelude::*;
use crate::palette;

verus! {

/// A number in two bytes, low byte first.
pub open spec fn le16(v: int) -> Seq<u8> {
    seq![(v % 256) as u8, (v / 256 % 256) as u8]
}

/// A number in four bytes, low byte first.
pub open spec fn le32(v: int) -> Seq<u8> {
    seq![
        (v % 256) as u8,
        (v / 256 % 256) as u8,
        (v / 65536 % 256) as u8,
        (v / 16777216 % 256) as u8,
    ]
}

/// Bytes of a row of a bitmap: three per pixel, filled up to a multiple of four.
pub open spec fn bmp_stride(w: int) -> int {
    (w * 3 + 3) / 4 * 4
}

/// The 54 bytes before a bitmap's pixels.
pub open spec fn bmp_header(w: int, h: int) -> Seq<u8> {
    let size = bmp_stride(w) * h;
    seq![0x42u8, 0x4D] + le32(54 + size) + le32(0) + le32(54) + le32(40) + le32(w) + le32(h) + le16(1)
        + le16(24) + le32(0) + le32(size) + le32(0) + le32(0) + le32(0) + le32(0)
}

/// A row of a bitmap, from pixels given by blue, green and red.
pub open spec fn bmp_row(pixel: spec_fn(int) -> Seq<u8>, w: int) -> Seq<u8> {
    Seq::new(
        bmp_stride(w) as nat,
        |k: int|
            if k < 3 * w {
                pixel(k / 3)[k % 3]
            } else {
                0
            },
    )
}

/// Blue, green and red of a pixel in RGB24.
pub open spec fn bgr24(px: Seq<u8>, p: int) -> Seq<u8> {
    seq![px[3 * p + 2], px[3 * p + 1], px[3 * p]]
}

/// Blue, green and red of a pixel `0x00RRGGBB`.
pub open spec fn bgr32(px: Seq<u32>, p: int) -> Seq<u8> {
    seq![
        (px[p] % 256) as u8,
        (px[p] / 256 % 256) as u8,
        (px[p] / 65536 % 256) as u8,
    ]
}

/// The last `n` rows of a bitmap, bottom row first.
pub open spec fn bmp_rows24(px: Seq<u8>, w: int, h: int, n: int) -> Seq<u8>
    decreases n,
{
    if n <= 0 {
        Seq::empty()
    } else {
        bmp_rows24(px, w, h, n - 1) + bmp_row(|x: int| bgr24(px, (h - n) * w + x), w)
    }
}

/// The same from pixels `0x00RRGGBB`.
pub open spec fn bmp_rows32(px: Seq<u32>, w: int, h: int, n: int) -> Seq<u8>
    decreases n,
{
    if n <= 0 {
        Seq::empty()
    } else {
        bmp_rows32(px, w, h, n - 1) + bmp_row(|x: int| bgr32(px, (h - n) * w + x), w)
    }
}

fn push_le32(out: &mut Vec<u8>, v: u64)
    ensures
        final(out)@ == old(out)@ + le32(v as int),
{
    out.push((v % 256) as u8);
    out.push((v / 256 % 256) as u8);
    out.push((v / 65536 % 256) as u8);
    out.push((v / 16777216 % 256) as u8);
    assert(out@ =~= old(out)@ + le32(v as int));
}

fn push_le16(out: &mut Vec<u8>, v: u16)
    ensures
        final(out)@ == old(out)@ + le16(v as int),
{
    out.push((v % 256) as u8);
    out.push((v / 256 % 256) as u8);
    assert(out@ =~= old(out)@ + le16(v as int));
}

/// The picture's size and that of its file can be counted.
pub open spec fn bmp_fits(w: u32, h: u32) -> bool {
    &&& w * 3 + 3 <= u32::MAX
    &&& 54 + bmp_stride(w as int) * h <= usize::MAX
}

fn write_bmp_header(w: u32, h: u32) -> (out: Vec<u8>)
    requires
        bmp_fits(w, h),
    ensures
        out@ == bmp_header(w as int, h as int),
{
    let stride: usize = ((w * 3 + 3) / 4 * 4) as usize;
    let size: u64 = (stride * h as usize) as u64;
    let mut out: Vec<u8> = Vec::new();
    out.push(0x42);
    out.push(0x4D);
    assert(out@ =~= seq![0x42u8, 0x4D]);
    push_le32(&mut out, 54 + size);
    push_le32(&mut out, 0);
    push_le32(&mut out, 54);
    push_le32(&mut out, 40);
    push_le32(&mut out, w as u64);
    push_le32(&mut out, h as u64);
    push_le16(&mut out, 1);
    push_le16(&mut out, 24);
    push_le32(&mut out, 0);
    push_le32(&mut out, size);
    push_le32(&mut out, 0);
    push_le32(&mut out, 0);
    push_le32(&mut out, 0);
    push_le32(&mut out, 0);
    out
}

/// Fills a row up with zeros.
fn pad_row(out: &mut Vec<u8>, w: u32, Ghost(start): Ghost<int>, Ghost(row): Ghost<Seq<u8>>)
    requires
        w * 3 + 3 <= u32::MAX,
        0 <= start,
        old(out).len() == start + 3 * w,
        row.len() == bmp_stride(w as int),
        forall|k: int| 0 <= k < 3 * w ==> old(out)@[start + k] == #[trigger] row[k],
        forall|k: int| 3 * w <= k < row.len() ==> #[trigger] row[k] == 0,
    ensures
        final(out)@ == old(out)@.take(start) + row,
{
    let mut pad: u32 = (w * 3 + 3) / 4 * 4 - w * 3;
    let ghost mut k: int = 3 * w as int;
    while pad > 0
        invariant
            pad == row.len() - k,
            3 * w <= k,
            0 <= start,
            out.len() == start + k,
            old(out).len() == start + 3 * w,
            out@.take(start) == old(out)@.take(start),
            forall|j: int| 0 <= j < k ==> out@[start + j] == #[trigger] row[j],
            forall|j: int| 3 * w <= j < row.len() ==> #[trigger] row[j] == 0,
        decreases pad,
    {
        out.push(0);
        assert(out@.take(start) =~= old(out)@.take(start));
        pad = pad - 1;
        proof {
            k = k + 1;
        }
    }
    assert(out@ =~= old(out)@.take(start) + row);
}

/// A row's pixels lie inside the picture.
proof fn lemma_row_inside(y: int, w: int, h: int, x: int)
    requires
        0 <= y < h,
        0 <= x < w,
    ensures
        0 <= y * w + x < w * h,
        0 <= y * w,
{
    assert(0 <= y * w + x < w * h && 0 <= y * w) by (nonlinear_arith)
        requires
            0 <= y < h,
            0 <= x < w,
    ;
}

/// A 24-bit bitmap file of an RGB24 picture.
pub fn bmp_from_rgb24(px: &[u8], w: u32, h: u32) -> (file: Vec<u8>)
    requires
        bmp_fits(w, h),
        w * h * 3 <= px@.len(),
    ensures
        file@ == bmp_header(w as int, h as int) + bmp_rows24(px@, w as int, h as int, h as int),
{
    let mut out: Vec<u8> = write_bmp_header(w, h);
    let ghost head = out@;
    let mut n: u32 = 0;
    assert(out@ =~= head + bmp_rows24(px@, w as int, h as int, 0));
    while n < h
        invariant
            n <= h,
            bmp_fits(w, h),
            w * h * 3 <= px@.len(),
            out@ == head + bmp_rows24(px@, w as int, h as int, n as int),
        decreases h - n,
    {
        let y: u32 = h - 1 - n;
        let ghost row = bmp_row(|i: int| bgr24(px@, y * w + i), w as int);
        let ghost before = out@;
        assert(out@.take(before.len() as int) =~= before);
        let mut x: u32 = 0;
        while x < w
            invariant
                x <= w,
                y < h,
                w * 3 + 3 <= u32::MAX,
                w * h * 3 <= px@.len(),
                row == bmp_row(|i: int| bgr24(px@, y * w + i), w as int),
                out.len() == before.len() + 3 * x,
                out@.take(before.len() as int) == before,
                forall|k: int| 0 <= k < 3 * x ==> out@[before.len() + k] == #[trigger] row[k],
            decreases w - x,
        {
            proof {
                lemma_row_inside(y as int, w as int, h as int, x as int);
                assert(px.len() >= 3 * (y * w + x) + 3);
            }
            let p: usize = y as usize * w as usize + x as usize;
            out.push(px[p * 3 + 2]);
            out.push(px[p * 3 + 1]);
            out.push(px[p * 3]);
            proof {
                let k = 3 * x as int;
                assert(row[k] == bgr24(px@, y * w + x)[0]);
                assert(row[k + 1] == bgr24(px@, y * w + x)[1]);
                assert(row[k + 2] == bgr24(px@, y * w + x)[2]);
                assert(out@.take(before.len() as int) =~= before);
            }
            x = x + 1;
        }
        pad_row(&mut out, w, Ghost(before.len() as int), Ghost(row));
        n = n + 1;
        assert(out@ =~= head + bmp_rows24(px@, w as int, h as int, n as int));
    }
    out
}

/// A 24-bit bitmap file of a picture of pixels `0x00RRGGBB`.
pub fn bmp_from_argb(px: &[u32], w: u32, h: u32) -> (file: Vec<u8>)
    requires
        bmp_fits(w, h),
        w * h <= px@.len(),
    ensures
        file@ == bmp_header(w as int, h as int) + bmp_rows32(px@, w as int, h as int, h as int),
{
    let mut out: Vec<u8> = write_bmp_header(w, h);
    let ghost head = out@;
    let mut n: u32 = 0;
    assert(out@ =~= head + bmp_rows32(px@, w as int, h as int, 0));
    while n < h
        invariant
            n <= h,
            bmp_fits(w, h),
            w * h <= px@.len(),
            out@ == head + bmp_rows32(px@, w as int, h as int, n as int),
        decreases h - n,
    {
        let y: u32 = h - 1 - n;
        let ghost row = bmp_row(|i: int| bgr32(px@, y * w + i), w as int);
        let ghost before = out@;
        assert(out@.take(before.len() as int) =~= before);
        let mut x: u32 = 0;
        while x < w
            invariant
                x <= w,
                y < h,
                w * 3 + 3 <= u32::MAX,
                w * h <= px@.len(),
                row == bmp_row(|i: int| bgr32(px@, y * w + i), w as int),
                out.len() == before.len() + 3 * x,
                out@.take(before.len() as int) == before,
                forall|k: int| 0 <= k < 3 * x ==> out@[before.len() + k] == #[trigger] row[k],
            decreases w - x,
        {
            proof {
                lemma_row_inside(y as int, w as int, h as int, x as int);
                assert(px.len() >= y * w + x + 1);
            }
            let argb: u32 = px[y as usize * w as usize + x as usize];
            out.push((argb % 256) as u8);
            out.push((argb / 256 % 256) as u8);
            out.push((argb / 65536 % 256) as u8);
            proof {
                let k = 3 * x as int;
                assert(row[k] == bgr32(px@, y * w + x)[0]);
                assert(row[k + 1] == bgr32(px@, y * w + x)[1]);
                assert(row[k + 2] == bgr32(px@, y * w + x)[2]);
                assert(out@.take(before.len() as int) =~= before);
            }
            x = x + 1;
        }
        pad_row(&mut out, w, Ghost(before.len() as int), Ghost(row));
        n = n + 1;
        assert(out@ =~= head + bmp_rows32(px@, w as int, h as int, n as int));
    }
    out
}

/// A number in decimal digits.
pub open spec fn decimal(n: nat) -> Seq<u8>
    decreases n,
{
    if n < 10 {
        seq![(48 + n) as u8]
    } else {
        decimal(n / 10).push((48 + n % 10) as u8)
    }
}

fn push_decimal(out: &mut Vec<u8>, n: u32)
    ensures
        final(out)@ == old(out)@ + decimal(n as nat),
    decreases n,
{
    if n >= 10 {
        push_decimal(out, n / 10);
    }
    out.push((48 + n % 10) as u8);
    assert(out@ =~= old(out)@ + decimal(n as nat));
}

/// A binary PPM file of an RGB24 picture.
pub open spec fn ppm_file(px: Seq<u8>, w: int, h: int) -> Seq<u8> {
    seq![0x50u8, 0x36, 0x0A] + decimal(w as nat) + seq![0x20u8] + decimal(h as nat) + seq![
        0x0Au8,
        0x32,
        0x35,
        0x35,
        0x0A,
    ] + px.take(w * h * 3)
}

fn push_bytes(out: &mut Vec<u8>, bytes: &[u8], n: usize)
    requires
        n <= bytes@.len(),
    ensures
        final(out)@ == old(out)@ + bytes@.take(n as int),
{
    let mut i: usize = 0;
    assert(out@ =~= old(out)@ + bytes@.take(0));
    while i < n
        invariant
            i <= n <= bytes@.len(),
            out@ == old(out)@ + bytes@.take(i as int),
        decreases n - i,
    {
        out.push(bytes[i]);
        i = i + 1;
        assert(out@ =~= old(out)@ + bytes@.take(i as int));
    }
}

pub fn ppm_from_rgb24(px: &[u8], w: u32, h: u32) -> (file: Vec<u8>)
    requires
        w * h * 3 <= px@.len(),
    ensures
        file@ == ppm_file(px@, w as int, h as int),
{
    let mut out: Vec<u8> = vec![0x50u8, 0x36, 0x0A];
    push_decimal(&mut out, w);
    let space: [u8; 1] = [0x20];
    push_bytes(&mut out, space.as_slice(), 1);
    push_decimal(&mut out, h);
    let depth: [u8; 5] = [0x0A, 0x32, 0x35, 0x35, 0x0A];
    push_bytes(&mut out, depth.as_slice(), 5);
    proof {
        assert(px.len() >= w * h * 3);
        assert(0 <= w * h) by (nonlinear_arith);
        assert(space@.take(1) =~= seq![0x20u8]);
        assert(depth@.take(5) =~= seq![0x0Au8, 0x32, 0x35, 0x35, 0x0A]);
    }
    push_bytes(&mut out, px, w as usize * h as usize * 3);
    out
}

/// The colour at a pixel of an RGB24 picture 256 pixels wide, black outside of it.
pub open spec fn rgb24_at(fb: Seq<u8>, x: int, y: int) -> (u8, u8, u8) {
    let o = (y * 256 + x) * 3;
    if o + 2 < fb.len() {
        (fb[o], fb[o + 1], fb[o + 2])
    } else {
        (0, 0, 0)
    }
}

fn pixel_at(fb: &[u8], x: usize, y: usize) -> (c: (u8, u8, u8))
    requires
        x <= 256,
        y <= 240,
    ensures
        c == rgb24_at(fb@, x as int, y as int),
{
    let o: usize = (y * 256 + x) * 3;
    if o + 2 < fb.len() {
        (fb[o], fb[o + 1], fb[o + 2])
    } else {
        (0, 0, 0)
    }
}

/// A colour as the numbers of a terminal's colour sequence.
pub open spec fn color_numbers(c: (u8, u8, u8)) -> Seq<u8> {
    decimal(c.0 as nat) + seq![0x3Bu8] + decimal(c.1 as nat) + seq![0x3Bu8] + decimal(c.2 as nat)
        + seq![0x6Du8]
}

/// A character cell: an upper half block in two colours.
pub open spec fn cell_text(top: (u8, u8, u8), bottom: (u8, u8, u8)) -> Seq<u8> {
    seq![0x1Bu8, 0x5B, 0x33, 0x38, 0x3B, 0x32, 0x3B] + color_numbers(top) + seq![
        0x1Bu8,
        0x5B,
        0x34,
        0x38,
        0x3B,
        0x32,
        0x3B,
    ] + color_numbers(bottom) + seq![0xE2u8, 0x96, 0x80]
}

/// The first `n` cells of a line that shows two rows of pixels, every `scale`th pixel of
/// the picture.
pub open spec fn line_text(fb: Seq<u8>, scale: int, row: int, n: int) -> Seq<u8>
    decreases n,
{
    if n <= 0 {
        Seq::empty()
    } else {
        line_text(fb, scale, row, n - 1) + cell_text(
            rgb24_at(fb, (n - 1) * scale, row * scale),
            rgb24_at(fb, (n - 1) * scale, (row + 1) * scale),
        )
    }
}

/// The first `n` lines of the terminal picture.
pub open spec fn lines_text(fb: Seq<u8>, scale: int, n: int) -> Seq<u8>
    decreases n,
{
    if n <= 0 {
        Seq::empty()
    } else {
        lines_text(fb, scale, n - 1) + line_text(fb, scale, 2 * (n - 1), 256int / scale) + seq![
            0x1Bu8,
            0x5B,
            0x30,
            0x6D,
            0x0A,
        ]
    }
}

/// The picture as terminal output: the cursor goes home, then one line for every two
/// rows.
pub open spec fn terminal_text(fb: Seq<u8>, scale: int) -> Seq<u8> {
    seq![0x1Bu8, 0x5B, 0x48] + lines_text(fb, scale, (240int / scale + 1) / 2)
}

fn push_color(out: &mut Vec<u8>, c: (u8, u8, u8))
    ensures
        final(out)@ == old(out)@ + color_numbers(c),
{
    push_decimal(out, c.0 as u32);
    out.push(0x3B);
    push_decimal(out, c.1 as u32);
    out.push(0x3B);
    push_decimal(out, c.2 as u32);
    out.push(0x6D);
    assert(out@ =~= old(out)@ + color_numbers(c));
}

fn push_cell(out: &mut Vec<u8>, top: (u8, u8, u8), bottom: (u8, u8, u8))
    ensures
        final(out)@ == old(out)@ + cell_text(top, bottom),
{
    let fore: [u8; 7] = [0x1B, 0x5B, 0x33, 0x38, 0x3B, 0x32, 0x3B];
    let back: [u8; 7] = [0x1B, 0x5B, 0x34, 0x38, 0x3B, 0x32, 0x3B];
    let block: [u8; 3] = [0xE2, 0x96, 0x80];
    push_bytes(out, fore.as_slice(), 7);
    push_color(out, top);
    push_bytes(out, back.as_slice(), 7);
    push_color(out, bottom);
    push_bytes(out, block.as_slice(), 3);
    assert(fore@.take(7) =~= seq![0x1Bu8, 0x5B, 0x33, 0x38, 0x3B, 0x32, 0x3B]);
    assert(back@.take(7) =~= seq![0x1Bu8, 0x5B, 0x34, 0x38, 0x3B, 0x32, 0x3B]);
    assert(block@.take(3) =~= seq![0xE2u8, 0x96, 0x80]);
    assert(out@ =~= old(out)@ + cell_text(top, bottom));
}

/// Renders an RGB24 picture for a terminal, in half blocks and true colour.
pub fn render_to_terminal(fb: &[u8], scale: usize) -> (out: Vec<u8>)
    requires
        scale > 0,
    ensures
        out@ == terminal_text(fb@, scale as int),
{
    let rows: usize = 240 / scale;
    let cols: usize = 256 / scale;
    let mut out: Vec<u8> = vec![0x1Bu8, 0x5B, 0x48];
    let ghost home = out@;
    assert(home =~= seq![0x1Bu8, 0x5B, 0x48]);
    let mut line: usize = 0;
    assert(out@ =~= home + lines_text(fb@, scale as int, 0));
    while 2 * line < rows
        invariant
            scale > 0,
            rows == 240usize / scale,
            cols == 256usize / scale,
            2 * line <= rows + 1,
            rows <= 240,
            out@ == home + lines_text(fb@, scale as int, line as int),
        decreases rows + 2 - 2 * line,
    {
        let row: usize = 2 * line;
        let ghost before = out@;
        let mut col: usize = 0;
        assert(out@ =~= before + line_text(fb@, scale as int, row as int, 0));
        while col < cols
            invariant
                scale > 0,
                rows == 240usize / scale,
                cols == 256usize / scale,
                row < rows,
                rows <= 240,
                col <= cols <= 256,
                out@ == before + line_text(fb@, scale as int, row as int, col as int),
            decreases cols - col,
        {
            proof {
                lemma_scaled(col as int, cols as int, 256, scale as int);
                lemma_scaled(row as int, rows as int, 240, scale as int);
            }
            let top: (u8, u8, u8) = pixel_at(fb, col * scale, row * scale);
            let bottom: (u8, u8, u8) = pixel_at(fb, col * scale, (row + 1) * scale);
            push_cell(&mut out, top, bottom);
            col = col + 1;
            assert(out@ =~= before + line_text(fb@, scale as int, row as int, col as int));
        }
        let end: [u8; 5] = [0x1B, 0x5B, 0x30, 0x6D, 0x0A];
        push_bytes(&mut out, end.as_slice(), 5);
        assert(end@.take(5) =~= seq![0x1Bu8, 0x5B, 0x30, 0x6D, 0x0A]);
        line = line + 1;
        assert(out@ =~= home + lines_text(fb@, scale as int, line as int));
    }
    out
}

/// Cells stay inside the picture.
proof fn lemma_scaled(i: int, n: int, size: int, scale: int)
    requires
        0 <= i < n,
        n == size / scale,
        scale > 0,
        size >= 0,
    ensures
        0 <= i * scale <= size,
        0 <= (i + 1) * scale <= size,
{
    assert(n * scale <= size) by (nonlinear_arith)
        requires
            n == size / scale,
            scale > 0,
            size >= 0,
    ;
    assert(0 <= i * scale && i * scale <= (i + 1) * scale && (i + 1) * scale <= n * scale)
        by (nonlinear_arith)
        requires
            0 <= i < n,
            scale > 0,
    ;
}

/// An RGB24 picture as pixels `0x00RRGGBB`.
pub fn argb_from_rgb24(fb: &[u8]) -> (pixels: Vec<u32>)
    requires
        fb@.len() >= 184320,
    ensures
        pixels@ == Seq::new(
            61440,
            |p: int| palette::packed(fb@[3 * p], fb@[3 * p + 1], fb@[3 * p + 2]),
        ),
{
    let mut pixels: Vec<u32> = Vec::new();
    let mut p: usize = 0;
    while p < 61440
        invariant
            p <= 61440,
            fb@.len() >= 184320,
            pixels.len() == p,
            forall|q: int|
                0 <= q < p ==> #[trigger] pixels@[q] == palette::packed(
                    fb@[3 * q],
                    fb@[3 * q + 1],
                    fb@[3 * q + 2],
                ),
        decreases 61440 - p,
    {
        pixels.push(palette::pack(fb[3 * p], fb[3 * p + 1], fb[3 * p + 2]));
        p = p + 1;
    }
    assert(pixels@ =~= Seq::new(
        61440,
        |q: int| palette::packed(fb@[3 * q], fb@[3 * q + 1], fb@[3 * q + 2]),
    ));
    pixels
}

/// A bitmap file has 54 bytes and its rows.
pub proof fn bmp_length(px: Seq<u8>, w: int, h: int)
    requires
        0 <= w,
        0 <= h,
    ensures
        bmp_header(w, h).len() == 54,
        bmp_rows24(px, w, h, h).len() == bmp_stride(w) * h,
{
    lemma_rows_length(px, w, h, h);
}

proof fn lemma_rows_length(px: Seq<u8>, w: int, h: int, n: int)
    requires
        0 <= w,
        0 <= n,
    ensures
        bmp_rows24(px, w, h, n).len() == bmp_stride(w) * n,
    decreases n,
{
    if n > 0 {
        lemma_rows_length(px, w, h, n - 1);
        assert(bmp_stride(w) * n == bmp_stride(w) * (n - 1) + bmp_stride(w)) by (nonlinear_arith);
    } else {
        assert(bmp_stride(w) * 0 == 0);
    }
}

/// Both bitmap writers make the same file of the same picture.
pub proof fn bmp_writers_agree(px24: Seq<u8>, px32: Seq<u32>, w: int, h: int)
    requires
        0 <= w,
        0 <= h,
        forall|p: int|
            0 <= p < w * h ==> #[trigger] px32[p] == palette::packed(
                px24[3 * p],
                px24[3 * p + 1],
                px24[3 * p + 2],
            ),
    ensures
        bmp_rows24(px24, w, h, h) == bmp_rows32(px32, w, h, h),
{
    lemma_writers_agree(px24, px32, w, h, h);
}

proof fn lemma_writers_agree(px24: Seq<u8>, px32: Seq<u32>, w: int, h: int, n: int)
    requires
        0 <= w,
        0 <= n <= h,
        forall|p: int|
            0 <= p < w * h ==> #[trigger] px32[p] == palette::packed(
                px24[3 * p],
                px24[3 * p + 1],
                px24[3 * p + 2],
            ),
    ensures
        bmp_rows24(px24, w, h, n) == bmp_rows32(px32, w, h, n),
    decreases n,
{
    if n > 0 {
        lemma_writers_agree(px24, px32, w, h, n - 1);
        let y = h - n;
        let a = bmp_row(|x: int| bgr24(px24, y * w + x), w);
        let b = bmp_row(|x: int| bgr32(px32, y * w + x), w);
        assert forall|k: int| 0 <= k < a.len() implies a[k] == b[k] by {
            if k < 3 * w {
                let p = y * w + k / 3;
                lemma_row_inside(y, w, h, k / 3);
                assert(px32[p] == palette::packed(px24[3 * p], px24[3 * p + 1], px24[3 * p + 2]));
                lemma_unpack(px24[3 * p], px24[3 * p + 1], px24[3 * p + 2]);
                assert(bgr24(px24, p) =~= bgr32(px32, p));
            }
        }
        assert(a =~= b);
    }
}

/// Packing keeps the three colours apart.
proof fn lemma_unpack(r: u8, g: u8, b: u8)
    ensures
        palette::packed(r, g, b) % 256 == b,
        palette::packed(r, g, b) / 256 % 256 == g,
        palette::packed(r, g, b) / 65536 % 256 == r,
{
}

} // verus!

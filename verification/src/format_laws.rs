//! Formats: what numbers, colours and picture files look like outside, and how a recorded
//! trace is laid out.

use vstd::prelude::*;
use crate::bits;
use crate::contra::emitter;
use crate::contra::renderer::Scene;
use crate::contra::tile_map;
use crate::game;
use crate::game::{Delta, GameModel};
use crate::image;
use crate::palette;
use crate::picture_laws;
use crate::ppu_core;
use crate::renderer;

verus! {

/// The colours of the picture processor as words of red, green and blue.
pub open spec fn picture_colors() -> Seq<int> {
    seq![
        0x545454, 0x001E74, 0x081090, 0x300088, 0x440064, 0x5C0030, 0x540400, 0x3C1800,
        0x202A00, 0x083A00, 0x004000, 0x003C00, 0x00323C, 0x000000, 0x000000, 0x000000,
        0x989698, 0x084CC4, 0x3032EC, 0x5C1EE4, 0x8814B0, 0xA01464, 0x982220, 0x783C00,
        0x545A00, 0x287200, 0x087C00, 0x007628, 0x006678, 0x000000, 0x000000, 0x000000,
        0xECEEEC, 0x4C9AEC, 0x787CEC, 0xB062EC, 0xE454EC, 0xEC58B4, 0xEC6A64, 0xD48820,
        0xA0AA00, 0x74C400, 0x4CD020, 0x38CC6C, 0x38B4DC, 0x3C3C3C, 0x000000, 0x000000,
        0xECEEEC, 0xA8CCEC, 0xBCBCEC, 0xD4B2EC, 0xECAEEC, 0xECAED4, 0xECB4B0, 0xE4C490,
        0xCCD278, 0xB4DE78, 0xA8E290, 0x98E2B4, 0xA0D6E4, 0xA0A2A0, 0x000000, 0x000000,
    ]
}

/// The colours of the renderer as words of red, green and blue.
pub open spec fn renderer_colors() -> Seq<int> {
    seq![
        0x626262, 0x002E98, 0x1212A7, 0x3B00A4, 0x5B0089, 0x6B005A, 0x6A001E, 0x551200,
        0x352800, 0x103C00, 0x004200, 0x003C14, 0x00323E, 0x000000, 0x000000, 0x000000,
        0xABABAB, 0x0D57FF, 0x4B30FF, 0x8418E0, 0xAE17BF, 0xC2185B, 0xC02600, 0x9E4100,
        0x6D5C00, 0x387100, 0x0D7B00, 0x00762D, 0x006C71, 0x000000, 0x000000, 0x000000,
        0xFFFFFF, 0x53AEFF, 0x9085FF, 0xCB6DFF, 0xF66AFF, 0xFF6AAE, 0xFF7C63, 0xE89521,
        0xBAAB00, 0x7CC700, 0x4FD010, 0x30CB72, 0x38C1CC, 0x3C3C3C, 0x000000, 0x000000,
        0xFFFFFF, 0xB6DAFF, 0xCECAFF, 0xE7C2FF, 0xFBC0FF, 0xFFC0DB, 0xFFC8B7, 0xF5D29B,
        0xE0DD8D, 0xC5E98B, 0xB0ED96, 0xA2EBB0, 0xA4E6DB, 0xA8A8A8, 0x000000, 0x000000,
    ]
}

/// A colour as one number.
pub open spec fn rgb_word(c: (u8, u8, u8)) -> int {
    65536 * c.0 + 256 * c.1 + c.2
}

/// Each colour number names its colour; only the lower six bits count.
#[verifier::rlimit(50)]
pub proof fn colors_are_named(c: u8)
    ensures
        rgb_word(palette::rgb(c)) == picture_colors()[c as int % 64],
        palette::argb(c) == picture_colors()[c as int % 64],
        rgb_word(renderer::color_of(c)) == renderer_colors()[c as int % 64],
{
    let k = c as int % 64;
    lemma_picture_color(k);
    lemma_renderer_color(k);
}

#[verifier::rlimit(50)]
proof fn lemma_picture_color(k: int)
    requires
        0 <= k < 64,
    ensures
        ({
            let c = palette::NES_PAL[k];
            rgb_word((c[0], c[1], c[2])) == picture_colors()[k]
        }),
{
    assert(palette::NES_PAL[0]@ == seq![84u8, 84, 84] && palette::NES_PAL[1]@ == seq![0u8, 30, 116] && palette::NES_PAL[2]@ == seq![8u8, 16, 144] && palette::NES_PAL[3]@ == seq![48u8, 0, 136] && palette::NES_PAL[4]@ == seq![68u8, 0, 100] && palette::NES_PAL[5]@ == seq![92u8, 0, 48] && palette::NES_PAL[6]@ == seq![84u8, 4, 0] && palette::NES_PAL[7]@ == seq![60u8, 24, 0]);
    assert(palette::NES_PAL[8]@ == seq![32u8, 42, 0] && palette::NES_PAL[9]@ == seq![8u8, 58, 0] && palette::NES_PAL[10]@ == seq![0u8, 64, 0] && palette::NES_PAL[11]@ == seq![0u8, 60, 0] && palette::NES_PAL[12]@ == seq![0u8, 50, 60] && palette::NES_PAL[13]@ == seq![0u8, 0, 0] && palette::NES_PAL[14]@ == seq![0u8, 0, 0] && palette::NES_PAL[15]@ == seq![0u8, 0, 0]);
    assert(palette::NES_PAL[16]@ == seq![152u8, 150, 152] && palette::NES_PAL[17]@ == seq![8u8, 76, 196] && palette::NES_PAL[18]@ == seq![48u8, 50, 236] && palette::NES_PAL[19]@ == seq![92u8, 30, 228] && palette::NES_PAL[20]@ == seq![136u8, 20, 176] && palette::NES_PAL[21]@ == seq![160u8, 20, 100] && palette::NES_PAL[22]@ == seq![152u8, 34, 32] && palette::NES_PAL[23]@ == seq![120u8, 60, 0]);
    assert(palette::NES_PAL[24]@ == seq![84u8, 90, 0] && palette::NES_PAL[25]@ == seq![40u8, 114, 0] && palette::NES_PAL[26]@ == seq![8u8, 124, 0] && palette::NES_PAL[27]@ == seq![0u8, 118, 40] && palette::NES_PAL[28]@ == seq![0u8, 102, 120] && palette::NES_PAL[29]@ == seq![0u8, 0, 0] && palette::NES_PAL[30]@ == seq![0u8, 0, 0] && palette::NES_PAL[31]@ == seq![0u8, 0, 0]);
    assert(palette::NES_PAL[32]@ == seq![236u8, 238, 236] && palette::NES_PAL[33]@ == seq![76u8, 154, 236] && palette::NES_PAL[34]@ == seq![120u8, 124, 236] && palette::NES_PAL[35]@ == seq![176u8, 98, 236] && palette::NES_PAL[36]@ == seq![228u8, 84, 236] && palette::NES_PAL[37]@ == seq![236u8, 88, 180] && palette::NES_PAL[38]@ == seq![236u8, 106, 100] && palette::NES_PAL[39]@ == seq![212u8, 136, 32]);
    assert(palette::NES_PAL[40]@ == seq![160u8, 170, 0] && palette::NES_PAL[41]@ == seq![116u8, 196, 0] && palette::NES_PAL[42]@ == seq![76u8, 208, 32] && palette::NES_PAL[43]@ == seq![56u8, 204, 108] && palette::NES_PAL[44]@ == seq![56u8, 180, 220] && palette::NES_PAL[45]@ == seq![60u8, 60, 60] && palette::NES_PAL[46]@ == seq![0u8, 0, 0] && palette::NES_PAL[47]@ == seq![0u8, 0, 0]);
    assert(palette::NES_PAL[48]@ == seq![236u8, 238, 236] && palette::NES_PAL[49]@ == seq![168u8, 204, 236] && palette::NES_PAL[50]@ == seq![188u8, 188, 236] && palette::NES_PAL[51]@ == seq![212u8, 178, 236] && palette::NES_PAL[52]@ == seq![236u8, 174, 236] && palette::NES_PAL[53]@ == seq![236u8, 174, 212] && palette::NES_PAL[54]@ == seq![236u8, 180, 176] && palette::NES_PAL[55]@ == seq![228u8, 196, 144]);
    assert(palette::NES_PAL[56]@ == seq![204u8, 210, 120] && palette::NES_PAL[57]@ == seq![180u8, 222, 120] && palette::NES_PAL[58]@ == seq![168u8, 226, 144] && palette::NES_PAL[59]@ == seq![152u8, 226, 180] && palette::NES_PAL[60]@ == seq![160u8, 214, 228] && palette::NES_PAL[61]@ == seq![160u8, 162, 160] && palette::NES_PAL[62]@ == seq![0u8, 0, 0] && palette::NES_PAL[63]@ == seq![0u8, 0, 0]);
    let c = palette::NES_PAL[k];
    assert(c[0] == c@[0] && c[1] == c@[1] && c[2] == c@[2]);
}

#[verifier::rlimit(50)]
proof fn lemma_renderer_color(k: int)
    requires
        0 <= k < 64,
    ensures
        rgb_word(renderer::NES_PALETTE[k]) == renderer_colors()[k],
{
    assert(renderer::NES_PALETTE[0] == (98u8, 98u8, 98u8) && renderer::NES_PALETTE[1] == (0u8, 46u8, 152u8) && renderer::NES_PALETTE[2] == (18u8, 18u8, 167u8) && renderer::NES_PALETTE[3] == (59u8, 0u8, 164u8) && renderer::NES_PALETTE[4] == (91u8, 0u8, 137u8) && renderer::NES_PALETTE[5] == (107u8, 0u8, 90u8) && renderer::NES_PALETTE[6] == (106u8, 0u8, 30u8) && renderer::NES_PALETTE[7] == (85u8, 18u8, 0u8));
    assert(renderer::NES_PALETTE[8] == (53u8, 40u8, 0u8) && renderer::NES_PALETTE[9] == (16u8, 60u8, 0u8) && renderer::NES_PALETTE[10] == (0u8, 66u8, 0u8) && renderer::NES_PALETTE[11] == (0u8, 60u8, 20u8) && renderer::NES_PALETTE[12] == (0u8, 50u8, 62u8) && renderer::NES_PALETTE[13] == (0u8, 0u8, 0u8) && renderer::NES_PALETTE[14] == (0u8, 0u8, 0u8) && renderer::NES_PALETTE[15] == (0u8, 0u8, 0u8));
    assert(renderer::NES_PALETTE[16] == (171u8, 171u8, 171u8) && renderer::NES_PALETTE[17] == (13u8, 87u8, 255u8) && renderer::NES_PALETTE[18] == (75u8, 48u8, 255u8) && renderer::NES_PALETTE[19] == (132u8, 24u8, 224u8) && renderer::NES_PALETTE[20] == (174u8, 23u8, 191u8) && renderer::NES_PALETTE[21] == (194u8, 24u8, 91u8) && renderer::NES_PALETTE[22] == (192u8, 38u8, 0u8) && renderer::NES_PALETTE[23] == (158u8, 65u8, 0u8));
    assert(renderer::NES_PALETTE[24] == (109u8, 92u8, 0u8) && renderer::NES_PALETTE[25] == (56u8, 113u8, 0u8) && renderer::NES_PALETTE[26] == (13u8, 123u8, 0u8) && renderer::NES_PALETTE[27] == (0u8, 118u8, 45u8) && renderer::NES_PALETTE[28] == (0u8, 108u8, 113u8) && renderer::NES_PALETTE[29] == (0u8, 0u8, 0u8) && renderer::NES_PALETTE[30] == (0u8, 0u8, 0u8) && renderer::NES_PALETTE[31] == (0u8, 0u8, 0u8));
    assert(renderer::NES_PALETTE[32] == (255u8, 255u8, 255u8) && renderer::NES_PALETTE[33] == (83u8, 174u8, 255u8) && renderer::NES_PALETTE[34] == (144u8, 133u8, 255u8) && renderer::NES_PALETTE[35] == (203u8, 109u8, 255u8) && renderer::NES_PALETTE[36] == (246u8, 106u8, 255u8) && renderer::NES_PALETTE[37] == (255u8, 106u8, 174u8) && renderer::NES_PALETTE[38] == (255u8, 124u8, 99u8) && renderer::NES_PALETTE[39] == (232u8, 149u8, 33u8));
    assert(renderer::NES_PALETTE[40] == (186u8, 171u8, 0u8) && renderer::NES_PALETTE[41] == (124u8, 199u8, 0u8) && renderer::NES_PALETTE[42] == (79u8, 208u8, 16u8) && renderer::NES_PALETTE[43] == (48u8, 203u8, 114u8) && renderer::NES_PALETTE[44] == (56u8, 193u8, 204u8) && renderer::NES_PALETTE[45] == (60u8, 60u8, 60u8) && renderer::NES_PALETTE[46] == (0u8, 0u8, 0u8) && renderer::NES_PALETTE[47] == (0u8, 0u8, 0u8));
    assert(renderer::NES_PALETTE[48] == (255u8, 255u8, 255u8) && renderer::NES_PALETTE[49] == (182u8, 218u8, 255u8) && renderer::NES_PALETTE[50] == (206u8, 202u8, 255u8) && renderer::NES_PALETTE[51] == (231u8, 194u8, 255u8) && renderer::NES_PALETTE[52] == (251u8, 192u8, 255u8) && renderer::NES_PALETTE[53] == (255u8, 192u8, 219u8) && renderer::NES_PALETTE[54] == (255u8, 200u8, 183u8) && renderer::NES_PALETTE[55] == (245u8, 210u8, 155u8));
    assert(renderer::NES_PALETTE[56] == (224u8, 221u8, 141u8) && renderer::NES_PALETTE[57] == (197u8, 233u8, 139u8) && renderer::NES_PALETTE[58] == (176u8, 237u8, 150u8) && renderer::NES_PALETTE[59] == (162u8, 235u8, 176u8) && renderer::NES_PALETTE[60] == (164u8, 230u8, 219u8) && renderer::NES_PALETTE[61] == (168u8, 168u8, 168u8) && renderer::NES_PALETTE[62] == (0u8, 0u8, 0u8) && renderer::NES_PALETTE[63] == (0u8, 0u8, 0u8));
}

/// A packed colour holds blue in its lowest byte, then green, then red.
pub proof fn packed_colors(r: u8, g: u8, b: u8)
    ensures
        palette::packed(r, g, b) % 256 == b,
        palette::packed(r, g, b) / 256 % 256 == g,
        palette::packed(r, g, b) / 65536 == r,
{
}

/// A number written in bytes, lowest first, is the sum of the bytes by weight.
pub proof fn bytes_make_numbers(v: int)
    requires
        0 <= v,
    ensures
        v < 65536 ==> image::le16(v)[0] + 256 * image::le16(v)[1] == v,
        v < 4294967296 ==> image::le32(v)[0] + 256 * image::le32(v)[1] + 65536 * image::le32(v)[2]
            + 16777216 * image::le32(v)[3] == v,
        image::le16(v).len() == 2,
        image::le32(v).len() == 4,
{
}

/// The rows of a bitmap stand from the bottom up.
proof fn lemma_bitmap_rows(px: Seq<u8>, w: int, h: int, n: int, m: int, k: int)
    requires
        0 <= w,
        0 <= m < n <= h,
        0 <= k < image::bmp_stride(w),
    ensures
        image::bmp_rows24(px, w, h, n).len() == image::bmp_stride(w) * n,
        image::bmp_stride(w) * m + k < image::bmp_stride(w) * n,
        image::bmp_rows24(px, w, h, n)[image::bmp_stride(w) * m + k] == image::bmp_row(
            |x: int| image::bgr24(px, (h - 1 - m) * w + x),
            w,
        )[k],
    decreases n,
{
    let s = image::bmp_stride(w);
    assert(s * n == s * (n - 1) + s) by (nonlinear_arith);
    let before = image::bmp_rows24(px, w, h, n - 1);
    lemma_rows_length(px, w, h, n - 1);
    if m < n - 1 {
        lemma_bitmap_rows(px, w, h, n - 1, m, k);
        assert(image::bmp_rows24(px, w, h, n)[s * m + k] == before[s * m + k]);
    } else {
        assert(image::bmp_rows24(px, w, h, n)[s * m + k] == image::bmp_row(
            |x: int| image::bgr24(px, (h - n) * w + x),
            w,
        )[k]);
    }
}

proof fn lemma_rows_length(px: Seq<u8>, w: int, h: int, n: int)
    requires
        0 <= w,
        0 <= n,
    ensures
        image::bmp_rows24(px, w, h, n).len() == image::bmp_stride(w) * n,
    decreases n,
{
    if n > 0 {
        lemma_rows_length(px, w, h, n - 1);
        assert(image::bmp_stride(w) * n == image::bmp_stride(w) * (n - 1) + image::bmp_stride(w))
            by (nonlinear_arith);
    } else {
        assert(image::bmp_stride(w) * 0 == 0);
    }
}

/// A bitmap holds blue, green and red of the picture's pixels, the lowest row first and each
/// row filled up to whole groups of four bytes.
pub proof fn bitmap_pixels(px: Seq<u8>, w: int, h: int, x: int, y: int)
    requires
        0 <= x < w,
        0 <= y < h,
    ensures
        ({
            let s = image::bmp_stride(w);
            let rows = image::bmp_rows24(px, w, h, h);
            let at = s * (h - 1 - y) + 3 * x;
            let p = 3 * (y * w + x);
            &&& s % 4 == 0 && 3 * w <= s < 3 * w + 4
            &&& rows[at] == px[p + 2]
            &&& rows[at + 1] == px[p + 1]
            &&& rows[at + 2] == px[p]
        }),
{
    let m = h - 1 - y;
    lemma_bitmap_rows(px, w, h, h, m, 3 * x);
    lemma_bitmap_rows(px, w, h, h, m, 3 * x + 1);
    lemma_bitmap_rows(px, w, h, h, m, 3 * x + 2);
    assert(3 * x / 3 == x && (3 * x + 1) / 3 == x && (3 * x + 2) / 3 == x);
    assert(3 * x % 3 == 0 && (3 * x + 1) % 3 == 1 && (3 * x + 2) % 3 == 2);
}

/// What the header of a bitmap says: "BM", the file's size, 54 bytes before the pixels, width
/// and height, one plane of 24 bits, and the size of the pixels.
#[verifier::rlimit(50)]
pub proof fn bitmap_header(w: int, h: int)
    ensures
        ({
            let header = image::bmp_header(w, h);
            let size = image::bmp_stride(w) * h;
            &&& header.len() == 54
            &&& header[0] == 66 && header[1] == 77
            &&& header.subrange(2, 6) == image::le32(54 + size)
            &&& header.subrange(10, 14) == image::le32(54)
            &&& header.subrange(14, 18) == image::le32(40)
            &&& header.subrange(18, 22) == image::le32(w)
            &&& header.subrange(22, 26) == image::le32(h)
            &&& header.subrange(26, 28) == image::le16(1)
            &&& header.subrange(28, 30) == image::le16(24)
            &&& header.subrange(30, 34) == image::le32(0)
            &&& header.subrange(34, 38) == image::le32(size)
        }),
{
    let header = image::bmp_header(w, h);
    let size = image::bmp_stride(w) * h;
    assert(header.subrange(2, 6) =~= image::le32(54 + size));
    assert(header.subrange(10, 14) =~= image::le32(54));
    assert(header.subrange(14, 18) =~= image::le32(40));
    assert(header.subrange(18, 22) =~= image::le32(w));
    assert(header.subrange(22, 26) =~= image::le32(h));
    assert(header.subrange(26, 28) =~= image::le16(1));
    assert(header.subrange(28, 30) =~= image::le16(24));
    assert(header.subrange(30, 34) =~= image::le32(0));
    assert(header.subrange(34, 38) =~= image::le32(size));
}

/// The number that decimal digits make.
pub open spec fn digits_value(s: Seq<u8>) -> int
    decreases s.len(),
{
    if s.len() == 0 {
        0
    } else {
        10 * digits_value(s.drop_last()) + (s.last() - 48)
    }
}

/// A number written in decimal reads back as the number, in digits alone and without leading
/// zeros.
pub proof fn decimals_read_back(n: nat)
    ensures
        digits_value(image::decimal(n)) == n,
        image::decimal(n).len() > 0,
        forall|i: int| 0 <= i < image::decimal(n).len() ==> 48 <= #[trigger] image::decimal(n)[i]
            <= 57,
        n > 0 ==> image::decimal(n)[0] != 48,
    decreases n,
{
    let s = image::decimal(n);
    if n < 10 {
        assert(s.drop_last() =~= Seq::<u8>::empty());
        assert(digits_value(s.drop_last()) == 0);
    } else {
        decimals_read_back(n / 10);
        assert(s.drop_last() =~= image::decimal(n / 10));
        assert(s[0] == image::decimal(n / 10)[0]);
    }
}

/// The value of a hexadecimal digit.
pub open spec fn hex_value(c: char) -> int {
    if c as int <= 57 {
        c as int - 48
    } else {
        c as int - 55
    }
}

/// A hexadecimal digit is one character with its value.
#[verifier::rlimit(50)]
proof fn lemma_hex_digit(n: int)
    requires
        0 <= n < 16,
    ensures
        emitter::digit_text(n).len() == 1,
        hex_value(emitter::digit_text(n)[0]) == n,
{
    reveal_strlit("0");
    reveal_strlit("1");
    reveal_strlit("2");
    reveal_strlit("3");
    reveal_strlit("4");
    reveal_strlit("5");
    reveal_strlit("6");
    reveal_strlit("7");
    reveal_strlit("8");
    reveal_strlit("9");
    reveal_strlit("A");
    reveal_strlit("B");
    reveal_strlit("C");
    reveal_strlit("D");
    reveal_strlit("E");
    reveal_strlit("F");
}

/// Characters in a row.
proof fn lemma_in_a_row(a: Seq<char>, b: Seq<char>, c: Seq<char>, d: Seq<char>)
    requires
        a.len() == 1,
        b.len() == 1,
        c.len() == 1,
        d.len() == 1,
    ensures
        (a + b).len() == 2 && (a + b)[0] == a[0] && (a + b)[1] == b[0],
        ({
            let s = a + b + c + d;
            &&& s.len() == 4
            &&& s[0] == a[0] && s[1] == b[0] && s[2] == c[0] && s[3] == d[0]
        }),
{
}

/// Two hexadecimal digits read back as the byte.
#[verifier::rlimit(60)]
#[verifier::spinoff_prover]
pub proof fn hex_bytes_read_back(b: u8)
    ensures
        emitter::hex2(b).len() == 2,
        16 * hex_value(emitter::hex2(b)[0]) + hex_value(emitter::hex2(b)[1]) == b,
{
    reveal(emitter::hex2);
    lemma_hex_digit(b as int / 16);
    lemma_hex_digit(b as int % 16);
    let hi = emitter::digit_text(b as int / 16);
    let lo = emitter::digit_text(b as int % 16);
    lemma_in_a_row(hi, lo, hi, lo);
}

/// Four hexadecimal digits read back as the word.
#[verifier::rlimit(60)]
#[verifier::spinoff_prover]
pub proof fn hex_words_read_back(w: u16)
    ensures
        emitter::hex4(w).len() == 4,
        4096 * hex_value(emitter::hex4(w)[0]) + 256 * hex_value(emitter::hex4(w)[1]) + 16
            * hex_value(emitter::hex4(w)[2]) + hex_value(emitter::hex4(w)[3]) == w,
{
    reveal(emitter::hex4);
    let n = w as int;
    lemma_hex_digit(n / 4096);
    lemma_hex_digit(n / 256 % 16);
    lemma_hex_digit(n / 16 % 16);
    lemma_hex_digit(n % 16);
    lemma_in_a_row(
        emitter::digit_text(n / 4096),
        emitter::digit_text(n / 256 % 16),
        emitter::digit_text(n / 16 % 16),
        emitter::digit_text(n % 16),
    );
    assert(4096 * (n / 4096) + 256 * (n / 256 % 16) + 16 * (n / 16 % 16) + n % 16 == n);
}

/// The number that decimal characters make.
pub open spec fn text_value(s: Seq<char>) -> int
    decreases s.len(),
{
    if s.len() == 0 {
        0
    } else {
        10 * text_value(s.drop_last()) + hex_value(s.last())
    }
}

/// A written decimal number reads back as the number.
pub proof fn written_decimals_read_back(n: nat)
    ensures
        text_value(emitter::decimal(n)) == n,
    decreases n,
{
    let s = emitter::decimal(n);
    if n < 10 {
        lemma_hex_digit(n as int);
        assert(s.drop_last() =~= Seq::<char>::empty());
        assert(text_value(s.drop_last()) == 0);
    } else {
        written_decimals_read_back(n / 10);
        lemma_hex_digit((n % 10) as int);
        assert(s.drop_last() =~= emitter::decimal(n / 10));
        assert(s.last() == emitter::digit_text((n % 10) as int)[0]);
    }
}

/// A cell of the tile map: its number lies 32 to a row, its palette in the two bits of the
/// attribute byte of its block of four by four cells that belong to its quadrant.
#[verifier::rlimit(50)]
pub proof fn map_cells(map: Seq<u8>, table: int, x: int, y: int)
    requires
        0 <= table < 2,
        0 <= x < 32,
        0 <= y < 30,
    ensures
        tile_map::tile_index(table, x, y) == 1024 * table + 32 * y + x,
        tile_map::attribute_index(table, x, y) == 1024 * table + 960 + 8 * (y / 4) + x / 4,
        ({
            let attr = map[tile_map::attribute_index(table, x, y)];
            let low: int = if y % 4 < 2 {
                if x % 4 < 2 {
                    0
                } else {
                    2
                }
            } else {
                if x % 4 < 2 {
                    4
                } else {
                    6
                }
            };
            tile_map::cell_palette(attr, x, y) == picture_laws::two_bits(
                bits::bit8(attr, low),
                bits::bit8(attr, low + 1),
            )
        }),
{
    let attr = map[tile_map::attribute_index(table, x, y)];
    picture_laws::bit_pairs(attr);
    assert(y / 2 % 2 == (if y % 4 < 2 {
        0int
    } else {
        1
    }));
    assert(x / 2 % 2 == (if x % 4 < 2 {
        0int
    } else {
        1
    }));
}

/// A column of a drawn scanline shows the cell that lies as far from the first tile: its
/// pattern row, leftmost pixel in the highest bit, and its palette.
#[verifier::rlimit(50)]
pub proof fn scene_columns(scene: Scene, px: int)
    requires
        0 <= px < 256,
        0 <= scene.fine_x <= 8,
    ensures
        ({
            let across = 8 * (scene.v as int % 32) + scene.fine_x + px;
            let table = (scene.v as int / 1024 + across / 256) % 2;
            let x = across / 8 % 32;
            let y = scene.v as int / 32 % 32;
            let tile = scene.map[1024 * table + 32 * y + x];
            let attr = scene.map[tile_map::attribute_index(table, x, y)];
            let row = 16 * tile + scene.v as int / 4096 % 8 + (if bits::bit8(scene.ctrl, 4) {
                4096int
            } else {
                0
            });
            let bit = 7 - across % 8;
            &&& scene.tile_pixel(px).0 == picture_laws::two_bits(
                bits::bit8(scene.cart.chr_at(row), bit),
                bits::bit8(scene.cart.chr_at(row + 8), bit),
            )
            &&& scene.tile_pixel(px).1 == tile_map::cell_palette(attr, x, y)
        }),
{
    let across = scene.across(px);
    let nx = scene.v as int / 1024 % 2;
    assert((nx + across / 256) % 2 == (scene.v as int / 1024 + across / 256) % 2);
}

/// How a trace begins: the number of frames in four bytes, 8192 bytes of patterns, two
/// nametables of 1024 bytes and 32 palette entries.
pub proof fn traces_begin(trace: Seq<u8>, k: int)
    requires
        trace.len() >= 10276,
        0 <= k < 8192,
    ensures
        ({
            let g = game::game_of(trace);
            &&& g.total_frames == trace[0] + 256 * (trace[1] + 256 * (trace[2] + 256 * trace[3]))
            &&& g.chr_data[k] == trace[4 + k]
            &&& k < 2048 ==> g.nametable[k] == trace[4 + 8192 + k]
            &&& k < 32 ==> g.pal_data[k] == trace[4 + 8192 + 2048 + k]
            &&& g.trace_offset == 4 + 8192 + 2048 + 32
            &&& g.sprites.len() == 0
            &&& g.mask == 0
        }),
{
}

/// How a frame of a trace is laid out: two scroll positions of two bytes, a byte that is not
/// used, control and mask; a flag and, if it is set, new patterns; a flag and, if it is set,
/// a new palette; then the patches and the sprites.
#[verifier::rlimit(50)]
pub proof fn frames_are_laid_out(g: GameModel, k: int)
    requires
        g.wf(),
        g.delta().fits(),
        0 <= k < 8192,
    ensures
        ({
            let t = g.trace;
            let o = g.trace_offset;
            let after = g.delta_applied();
            let flag = if t[o + 7] != 0 {
                o + 8 + 8192
            } else {
                o + 8
            };
            let patches = if t[flag] != 0 {
                flag + 1 + 32
            } else {
                flag + 1
            };
            let count = t[patches] + 256 * t[patches + 1];
            let sprites = patches + 2 + 3 * count;
            &&& after.scroll_x == t[o] + 256 * t[o + 1]
            &&& after.scroll_y == t[o + 2] + 256 * t[o + 3]
            &&& after.ctrl == t[o + 5]
            &&& after.mask == t[o + 6]
            &&& t[o + 7] != 0 ==> after.chr_data[k] == t[o + 8 + k]
            &&& t[o + 7] == 0 ==> after.chr_data == g.chr_data
            &&& t[flag] != 0 && k < 32 ==> after.pal_data[k] == t[flag + 1 + k]
            &&& t[flag] == 0 ==> after.pal_data == g.pal_data
            &&& after.sprites.len() == t[sprites]
            &&& k < t[sprites] ==> after.sprites[k] == (
                t[sprites + 1 + 4 * k],
                t[sprites + 2 + 4 * k],
                t[sprites + 3 + 4 * k],
                t[sprites + 4 + 4 * k],
            )
            &&& after.trace_offset == sprites + 1 + 4 * t[sprites]
            &&& after.nametable == g.delta().patched(g.nametable, count)
        }),
{
}

/// A patch is a cell, in two bytes, and its new value. A cell that no patch names stays; one
/// that a patch names and no later one does holds that patch's value.
pub proof fn patches_change_cells(d: Delta, table: Seq<u8>, n: int, cell: int)
    requires
        0 <= n,
        0 <= cell < table.len(),
    ensures
        d.patched(table, n).len() == table.len(),
        (forall|m: int| 0 <= m < n ==> #[trigger] patched_cell(d, m) != cell) ==> d.patched(
            table,
            n,
        )[cell] == table[cell],
        forall|m: int|
            0 <= m < n && #[trigger] patched_cell(d, m) == cell && (forall|l: int|
                m < l < n ==> #[trigger] patched_cell(d, l) != cell) ==> d.patched(table, n)[cell]
                == d.trace[d.patch_count_at() + 2 + 3 * m + 2],
    decreases n,
{
    if n > 0 {
        patches_change_cells(d, table, n - 1, cell);
        let last = patched_cell(d, n - 1);
        assert(d.patched(table, n) == (if last < table.len() {
            d.patched(table, n - 1).update(
                last,
                d.trace[d.patch_count_at() + 2 + 3 * (n - 1) + 2],
            )
        } else {
            d.patched(table, n - 1)
        }));
    }
}

/// The cell that patch `m` names.
pub open spec fn patched_cell(d: Delta, m: int) -> int {
    let at = d.patch_count_at() + 2 + 3 * m;
    d.trace[at] + 256 * d.trace[at + 1]
}

/// A portable pixmap: "P6", width and height in decimal, the largest value 255, and red,
/// green and blue of every pixel.
#[verifier::rlimit(50)]
pub proof fn pixmap_layout(px: Seq<u8>, w: int, h: int, i: int)
    requires
        w >= 0,
        h >= 0,
        0 <= w * h * 3 <= px.len(),
        0 <= i < w * h * 3,
    ensures
        ({
            let file = image::ppm_file(px, w, h);
            let wide = image::decimal(w as nat);
            let high = image::decimal(h as nat);
            let behind = 3 + (wide.len() as int) + 1 + (high.len() as int);
            &&& file[0] == 80 && file[1] == 54 && file[2] == 10
            &&& file.subrange(3, 3 + (wide.len() as int)) == wide
            &&& file[3 + (wide.len() as int)] == 32
            &&& file.subrange(4 + (wide.len() as int), behind) == high
            &&& file.subrange(behind, behind + 5) == seq![10u8, 50, 53, 53, 10]
            &&& file[behind + 5 + i] == px[i]
            &&& file.len() == behind + 5 + w * h * 3
        }),
{
    let file = image::ppm_file(px, w, h);
    let wide = image::decimal(w as nat);
    let high = image::decimal(h as nat);
    let behind = 3 + (wide.len() as int) + 1 + (high.len() as int);
    assert(file.subrange(3, 3 + (wide.len() as int)) =~= wide);
    assert(file.subrange(4 + (wide.len() as int), behind) =~= high);
    assert(file.subrange(behind, behind + 5) =~= seq![10u8, 50, 53, 53, 10]);
}

/// A cell of the terminal picture sets the text colour to that of its upper pixel and the
/// background to that of its lower one, each as three decimal numbers, and prints an upper
/// half block.
#[verifier::rlimit(50)]
pub proof fn cells_show_two_pixels(top: (u8, u8, u8), bottom: (u8, u8, u8))
    ensures
        ({
            let cell = image::cell_text(top, bottom);
            let a = image::decimal(top.0 as nat);
            let b = image::decimal(top.1 as nat);
            let c = image::decimal(top.2 as nat);
            let d = image::decimal(bottom.0 as nat);
            let n = 7 + (a.len() as int) + 1 + (b.len() as int) + 1 + (c.len() as int);
            &&& cell[0] == 27 && cell[1] == 91 && cell[2] == 51 && cell[3] == 56
            &&& cell.subrange(7, 7 + (a.len() as int)) == a
            &&& cell.subrange(8 + (a.len() as int), 8 + (a.len() as int) + (b.len() as int)) == b
            &&& cell.subrange(9 + (a.len() as int) + (b.len() as int), n) == c
            &&& cell[n] == 109
            &&& cell[n + 1] == 27 && cell[n + 2] == 91 && cell[n + 3] == 52 && cell[n + 4] == 56
            &&& cell.subrange(n + 8, n + 8 + (d.len() as int)) == d
            &&& cell[cell.len() - 3] == 0xE2 && cell[cell.len() - 2] == 0x96 && cell[cell.len() - 1]
                == 0x80
        }),
{
    let cell = image::cell_text(top, bottom);
    let a = image::decimal(top.0 as nat);
    let b = image::decimal(top.1 as nat);
    let c = image::decimal(top.2 as nat);
    let d = image::decimal(bottom.0 as nat);
    let n = 7 + (a.len() as int) + 1 + (b.len() as int) + 1 + (c.len() as int);
    assert(cell.subrange(7, 7 + (a.len() as int)) =~= a);
    assert(cell.subrange(8 + (a.len() as int), 8 + (a.len() as int) + (b.len() as int)) =~= b);
    assert(cell.subrange(9 + (a.len() as int) + (b.len() as int), n) =~= c);
    assert(cell.subrange(n + 8, n + 8 + (d.len() as int)) =~= d);
}

/// A byte of the written program: "0x" and two digits that read back as the byte, and a
/// comma; the first of each thirty-two is indented.
pub proof fn program_bytes_read_back(bank: Seq<u8>, n: int)
    requires
        0 <= n,
    ensures
        ({
            let text = emitter::byte_text(bank, n);
            let at: int = if n % 32 == 0 {
                4
            } else {
                0
            };
            &&& text[at] == '0' && text[at + 1] == 'x'
            &&& 16 * hex_value(text[at + 2]) + hex_value(text[at + 3]) == bank[n]
            &&& text[at + 4] == ','
            &&& n % 32 == 31 ==> text.len() == at + 6 && text[at + 5] == '\n'
            &&& n % 32 != 31 ==> text.len() == at + 5
        }),
{
    hex_bytes_read_back(bank[n]);
    reveal_strlit("    0x");
    reveal_strlit("0x");
    reveal_strlit(",\n");
    reveal_strlit(",");
}

} // verus!

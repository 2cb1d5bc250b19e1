//! The 64 colours of the 2C02.

use vstd::prelude::*;

verus! {

/// Red, green and blue of each colour.
pub const NES_PAL: [[u8; 3]; 64] = [
    [84, 84, 84], [0, 30, 116], [8, 16, 144], [48, 0, 136],
    [68, 0, 100], [92, 0, 48], [84, 4, 0], [60, 24, 0],
    [32, 42, 0], [8, 58, 0], [0, 64, 0], [0, 60, 0],
    [0, 50, 60], [0, 0, 0], [0, 0, 0], [0, 0, 0],
    [152, 150, 152], [8, 76, 196], [48, 50, 236], [92, 30, 228],
    [136, 20, 176], [160, 20, 100], [152, 34, 32], [120, 60, 0],
    [84, 90, 0], [40, 114, 0], [8, 124, 0], [0, 118, 40],
    [0, 102, 120], [0, 0, 0], [0, 0, 0], [0, 0, 0],
    [236, 238, 236], [76, 154, 236], [120, 124, 236], [176, 98, 236],
    [228, 84, 236], [236, 88, 180], [236, 106, 100], [212, 136, 32],
    [160, 170, 0], [116, 196, 0], [76, 208, 32], [56, 204, 108],
    [56, 180, 220], [60, 60, 60], [0, 0, 0], [0, 0, 0],
    [236, 238, 236], [168, 204, 236], [188, 188, 236], [212, 178, 236],
    [236, 174, 236], [236, 174, 212], [236, 180, 176], [228, 196, 144],
    [204, 210, 120], [180, 222, 120], [168, 226, 144], [152, 226, 180],
    [160, 214, 228], [160, 162, 160], [0, 0, 0], [0, 0, 0],
];

/// Red, green and blue of a colour number; only its low six bits count.
pub open spec fn rgb(color: u8) -> (u8, u8, u8) {
    let c = NES_PAL[color as int % 64];
    (c[0], c[1], c[2])
}

pub fn color_rgb(color: u8) -> (c: (u8, u8, u8))
    ensures
        c == rgb(color),
{
    let entry: [u8; 3] = NES_PAL[(color % 64) as usize];
    (entry[0], entry[1], entry[2])
}

/// A colour number as `0x00RRGGBB`.
pub open spec fn argb(color: u8) -> u32 {
    let c = rgb(color);
    packed(c.0, c.1, c.2)
}

/// Red, green and blue in one word, `0x00RRGGBB`.
pub open spec fn packed(r: u8, g: u8, b: u8) -> u32 {
    (r * 65536 + g * 256 + b) as u32
}

pub fn pack(r: u8, g: u8, b: u8) -> (word: u32)
    ensures
        word == packed(r, g, b),
{
    r as u32 * 65536 + g as u32 * 256 + b as u32
}

} // verus!

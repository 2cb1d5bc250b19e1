//! Nametable memory: which tile and palette each cell of the screen shows.

use vstd::prelude::*;
use crate::bits;

verus! {

/// Two screens of 32x30 tile numbers and 64 attribute bytes each.
pub struct TileMap {
    pub data: [u8; 2048],
}

/// Where the tile number of a cell is stored.
pub open spec fn tile_index(nametable: int, x: int, y: int) -> int {
    nametable % 2 * 1024 + y * 32 + x
}

/// Where the attribute byte of a cell is stored. It covers 4x4 cells.
pub open spec fn attribute_index(nametable: int, x: int, y: int) -> int {
    nametable % 2 * 1024 + 960 + y / 4 * 8 + x / 4
}

/// The palette of a cell: two bits of the attribute byte for each 2x2 cells.
pub open spec fn cell_palette(attr: u8, x: int, y: int) -> int {
    attr as int / bits::weight(y / 2 % 2 * 4 + x / 2 % 2 * 2) % 4
}

impl View for TileMap {
    type V = Seq<u8>;

    open spec fn view(&self) -> Seq<u8> {
        self.data@
    }
}

impl TileMap {
    pub fn new() -> (map: TileMap)
        ensures
            map@ == Seq::new(2048, |i: int| 0u8),
    {
        TileMap { data: [0;2048] }
    }

    /// The byte at an offset.
    pub fn read_raw(&self, idx: usize) -> (val: u8)
        requires
            idx < 2048,
        ensures
            val == self@[idx as int],
    {
        self.data[idx]
    }

    /// Stores a byte at an offset.
    pub fn write_raw(&mut self, idx: usize, val: u8)
        requires
            idx < 2048,
        ensures
            final(self)@ == old(self)@.update(idx as int, val),
    {
        self.data[idx] = val;
    }

    /// The tile number of a cell.
    pub fn get_tile(&self, nametable: usize, coarse_x: usize, coarse_y: usize) -> (tile: u8)
        requires
            tile_index(nametable as int, coarse_x as int, coarse_y as int) < 2048,
        ensures
            tile == self@[tile_index(nametable as int, coarse_x as int, coarse_y as int)],
    {
        self.data[nametable % 2 * 1024 + coarse_y * 32 + coarse_x]
    }

    /// The palette of a cell.
    pub fn get_palette(&self, nametable: usize, coarse_x: usize, coarse_y: usize) -> (palette: u8)
        requires
            attribute_index(nametable as int, coarse_x as int, coarse_y as int) < 2048,
        ensures
            palette == cell_palette(
                self@[attribute_index(nametable as int, coarse_x as int, coarse_y as int)],
                coarse_x as int,
                coarse_y as int,
            ),
            palette < 4,
    {
        let attr: u8 = self.data[nametable % 2 * 1024 + 960 + coarse_y / 4 * 8 + coarse_x / 4];
        let right: bool = coarse_x / 2 % 2 == 1;
        if coarse_y / 2 % 2 == 0 {
            if right {
                attr / 4 % 4
            } else {
                attr % 4
            }
        } else if right {
            attr / 64 % 4
        } else {
            attr / 16 % 4
        }
    }
}

/// A byte written is read back, and no other byte changes.
pub proof fn reads_back(map: Seq<u8>, idx: int, val: u8, other: int)
    requires
        map.len() == 2048,
        0 <= idx < 2048,
        0 <= other < 2048,
    ensures
        map.update(idx, val)[other] == (if other == idx {
            val
        } else {
            map[other]
        }),
{
}

} // verus!

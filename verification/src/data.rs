//! Layout of the game's program.

use vstd::prelude::*;

verus! {

/// Program banks of 16 KB.
pub const PRG_BANKS: usize = 8;

/// The banks that hold tile patterns.
pub const TILE_BANK_0: usize = 5;

pub const TILE_BANK_1: usize = 6;

} // verus!

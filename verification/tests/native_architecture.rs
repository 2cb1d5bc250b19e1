// The game's data are constants of the library.

use contra_nes::data::{PRG_BANKS, TILE_BANK_0, TILE_BANK_1};
use contra_nes::level::Level;

/// The banks with tile patterns are known, and lie inside the program.
#[test]
fn has_tile_data() {
    assert_eq!((TILE_BANK_0, TILE_BANK_1), (5, 6));
    assert!(TILE_BANK_0 < PRG_BANKS && TILE_BANK_1 < PRG_BANKS);
}

/// The program's banks and the stages are known.
#[test]
fn has_level_data() {
    assert_eq!(PRG_BANKS, 8);
    let level = Level::new(3);
    assert_eq!((level.stage, level.scroll_x, level.scroll_y, level.width), (3, 0, 0, 8192));
}

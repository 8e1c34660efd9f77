use vstd::prelude::*;

verus! {

/// Number of systems on a side in the galaxy
pub const SYSTEMS: usize = 10;

/// Number of sectors on a side in a system
pub const SECTORS: usize = 10;

/// Number of cells in the whole galaxy
pub const CELLS: usize = 10000;

/// Number of cells in one system
pub const SYSTEM_CELLS: usize = 100;

/// Game difficulty (higher is harder)
pub const DIFFICULTY: u8 = 100;

/// `exp(DIFFICULTY / 255 - 1)` in thousandths: how densely systems are populated
pub const DENSITY_PER_MILLE: u64 = 545;

/// Victory condition
pub const MISSION: usize = 10;

/// Width of "terminal" display in tiles
pub const WIDTH: usize = 50;

/// Height of "terminal" display in tiles
pub const HEIGHT: usize = 25;

/// Pixels on a side in a given tile
pub const TILE_SIZE: usize = 16;

/// Tiles on a side in a tile-sheet
pub const NUM_TILES: usize = 16;

/// Time between drawing a tile (for dramatic effect)
pub const DELAY_TIME: usize = 20;

/// Extent of "terminal" excluding command line
pub const SCREEN: usize = 1200;

/// Width of the command prompt `COMMAND => `
pub const CWIDTH: usize = 11;

/// Width of the editable part of the command line
pub const LINE_WIDTH: usize = 39;

/// Number of lines of command history retained
pub const HIST: usize = 16;

/// Number of newlines after which a log page is full
pub const PAGE_LINES: usize = 21;

} // verus!

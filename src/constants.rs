use vstd::prelude::*;

verus! {

/// Width of the playfield in cells.
pub const GRID_WIDTH: i32 = 10;

/// Height of the playfield in cells.
pub const GRID_HEIGHT: i32 = 20;

/// Width of the playfield, as an index bound.
pub const BOARD_WIDTH: usize = 10;

/// Height of the playfield, as an index bound.
pub const BOARD_HEIGHT: usize = 20;

/// Most entries a high-score table keeps.
pub const MAX_HIGH_SCORES: usize = 10;

/// Points per cell for a hard drop, before the level multiplier.
pub const SCORE_DROP: u32 = 1;

/// Longest player name the name-entry screen accepts, in bytes.
pub const MAX_NAME_LEN: usize = 15;

/// Interval between automatic drops at level 1, in microseconds.
pub const BASE_DROP_MICROS: u64 = 1_000_000;

/// Interval of the blinking text on the menu screens, in microseconds.
pub const BLINK_MICROS: u64 = 500_000;

/// Interval of the blinking cursor on the name-entry screen, in microseconds.
pub const CURSOR_BLINK_MICROS: u64 = 300_000;

} // verus!

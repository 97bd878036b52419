//! Playfield geometry and timing constants. All times are in microseconds.

use vstd::prelude::*;

verus! {

/// Height of the playfield grid, in rows.
pub const NUM_ROWS: usize = 20;

/// Width of the playfield grid, in columns.
pub const NUM_COLS: usize = 40;

/// Level at which the game is complete.
pub const MAX_LEVEL: u8 = 3;

/// Number of lives a fresh game starts with.
pub const STARTING_LIVES: usize = 3;

/// A player may have at most this many live projectiles at once.
pub const PLAYER_MAX_SIMULTANEOUS_SHOTS: usize = 2;

/// Row of the topmost rank of the invader formation.
pub const INVADERS_FIRST_ROW: usize = 2;

/// Number of ranks in a fresh invader formation.
pub const INVADERS_ROW_COUNT: usize = 4;

/// Vertical spacing between ranks.
pub const INVADERS_ROW_INTERVAL: usize = 2;

/// Row of the lowest rank of a fresh formation.
pub const INVADERS_LAST_ROW: usize = INVADERS_FIRST_ROW + (INVADERS_ROW_COUNT - 1)
    * INVADERS_ROW_INTERVAL;

/// Column of the leftmost file of a fresh formation. Starting on an odd
/// column keeps the player from scoring a hit before the first sweep.
pub const INVADERS_FIRST_COL: usize = 1;

/// Horizontal spacing between files.
pub const INVADERS_COL_INTERVAL: usize = INVADERS_ROW_INTERVAL;

/// Exclusive bound on the columns a fresh formation occupies.
pub const INVADERS_LAST_COL: usize = NUM_COLS - 3;

/// Number of files in a fresh invader formation: every second column from
/// `INVADERS_FIRST_COL` up to but excluding `INVADERS_LAST_COL`, that is
/// columns 1, 3, ..., 35.
pub const INVADERS_COL_COUNT: usize = 18;

/// Interval between formation moves when a level begins.
pub const INVADERS_INITIAL_MOVE_INTERVAL_US: u64 = 2_000_000;

/// How much each descent shortens the move interval.
pub const INVADERS_MOVE_INTERVAL_DECREMENT_US: u64 = 250_000;

/// The move interval never drops below this floor.
pub const INVADERS_MOVE_INTERVAL_MINIMAL_US: u64 = 250_000;

/// Interval between one-row climbs of a travelling projectile.
pub const SHOT_MOVE_INTERVAL_US: u64 = 45_000;

/// How long an exploding projectile lingers before it is removed.
pub const SHOT_EXPLOSION_DURATION_US: u64 = 260_000;

/// Nominal height of the player glyph; the renderer keeps projectiles above
/// this band at the bottom of the playfield.
pub const PLAYER_CHAR_HEIGHT: usize = 6;

} // verus!

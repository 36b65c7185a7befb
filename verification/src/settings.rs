//! The numbers and names that a host of the game goes by.

use vstd::prelude::*;

verus! {

/// Columns of the grid that the game is played on.
pub const GRID_WIDTH: u32 = 20;

/// Rows of the grid that the game is played on.
pub const GRID_HEIGHT: u32 = 20;

/// Milliseconds from the end of one tick to the start of the next.
pub const TICK_MILLIS: u32 = 100;

/// Cells that the host draws at random for each tick, for the food to go
/// to if the snake eats.
pub const FOOD_DRAWS: usize = 32;

/// The key under which the host stores the high score.
pub const HIGH_SCORE_KEY: &'static str = "high_score";

} // verus!

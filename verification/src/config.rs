//! The fixed parameters of the game. All durations are in microseconds.

use vstd::prelude::*;

verus! {

/// Number of pending directions a snake can hold.
pub const INPUT_QUEUE_CAP: usize = 3;

/// Time between two discrete steps of a snake that is under no speed effect.
pub const INIT_TICK_RATE: u64 = 200_000;

/// Amount by which a `Fast` food lengthens the time between two steps.
pub const SLOW_DOWN_STEP: u64 = 100_000;

/// Height of the grid, in cells.
pub const NUM_ROWS: i32 = 20;

/// Width of the grid, in cells.
pub const NUM_COLS: i32 = 20;

/// Largest number of foods that spawning will fill the grid up to.
pub const MAX_FOODS: usize = 10;

/// Lifetime of a freshly spawned food.
pub const FOOD_DESPAWN_TIME: u64 = 7_000_000;

/// Duration of the wraparound effect.
pub const PORTAL_TIME: u64 = 7_000_000;

/// Duration of the collision immunity.
pub const INVISIBLE_TIME: u64 = 7_000_000;

/// Duration of the window in which every eaten food is replaced by two.
pub const DOUBLE_FOOD_TIME: u64 = 4_000_000;

/// Duration of a speed change.
pub const SPEED_CHANGE_TIME: u64 = 3_000_000;

/// Number of segments of a newly created snake.
pub const INIT_SNAKE_LEN: usize = 3;

/// Distance, in cells, between a snake and the neighbors it spawns.
pub const NEIGHBOR_DISTANCE: i32 = 3;

} // verus!

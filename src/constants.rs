//! Fixed parameters of a round.

use crate::position::Direction;
use vstd::prelude::*;

verus! {

/// The body length a fresh round grows toward.
pub const INITIAL_LENGTH: usize = 5;

/// The heading of a fresh round.
pub const INITIAL_DIRECTION: Direction = Direction::Right;

/// The column of the first segment, on boards wide enough to hold it.
pub const INITIAL_SNAKE_X: usize = 5;

/// How much the target length grows for each food item eaten.
pub const SNAKE_GROWTH_RATE: usize = 5;

/// Random draws made for one food item before the board is scanned in order.
pub const FOOD_DRAW_ATTEMPTS: usize = 1024;

} // verus!

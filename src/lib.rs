//! A grid-based Snake game engine: a walled board, the snake's body as an
//! ordered occupancy queue, buffered steering, per-tick movement with
//! collision and growth, random food placement and score keeping.

pub mod cell;
pub mod constants;
pub mod game;
pub mod grid;
pub mod position;
pub mod random;
pub mod score;
pub mod world;

//! A dense two-dimensional grid and a Game of Life step whose outer ring is
//! redrawn from a random source on every generation.

pub mod grid;
pub mod life;
pub mod random;
pub mod render;

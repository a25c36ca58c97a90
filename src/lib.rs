//! Conway's Game of Life on a toroidal grid, with a verified generation step.

pub mod bitset;
pub mod laws;
pub mod life;
pub mod universe;

//! Conway's Game of Life on a toroidal grid.
//!
//! The grid is a bit-packed, row-major boolean array together with the
//! per-generation update rule (B3/S23 with wrap-around neighbours).

pub mod bitset;
pub mod grid;
pub mod laws;

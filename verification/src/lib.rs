//! Conway's Game of Life on a fixed-size board with hard edges.

mod chance;
pub mod game;
pub mod grid;
pub mod input;
pub mod laws;

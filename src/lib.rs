//! Conway's Game of Life on a fixed, non-wrapping grid of cells.
pub mod geometry;
pub mod life;
pub mod render;
pub mod rules;

pub use life::{Cell, CellState, World};

//! Conway's Game of Life on a fixed-size toroidal grid.
//!
//! The `universe` module holds the simulation engine: the grid, the
//! neighbor-counting rule, and the generational update. The `render`
//! module turns a grid into its textual form, one character per cell.

pub mod render;
pub mod universe;

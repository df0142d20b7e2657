//! Conway's Game of Life on a finite grid, with a choice of boundary rules.
//!
//! [`Universe`] owns the grid and advances it one generation at a time;
//! [`grid::Grid`] is the mathematical model that its contracts speak of.

pub mod cell;
pub mod grid;
pub mod universe;

pub use cell::{Cell, UniverseEdgeMode, UniverseError};
pub use universe::Universe;

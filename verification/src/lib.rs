//! Conway's Game of Life on a fixed-size toroidal grid.
//!
//! A [`Universe`] holds a row-major buffer of [`Cell`] values together with
//! its fixed dimensions. Each step applies the classic neighbor-count rule to
//! every cell simultaneously: the whole next generation is computed from one
//! frozen prior generation and then installed by a single buffer replacement.
//! The grid wraps at the edges, so every cell has exactly eight neighbors.

pub mod cell;
pub mod universe;

pub use cell::Cell;
pub use universe::InvariantViolation;
pub use universe::Universe;

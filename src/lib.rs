//! Conway's Game of Life on a finite rectangular grid whose edges do not wrap.

pub mod cell;
pub mod grid;
mod random;
pub mod universe;

pub use cell::Cell;
pub use universe::Universe;

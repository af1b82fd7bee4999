//! Conway's Game of Life on a toroidal grid.
//!
//! [`grid::Grid`] is the mathematical model of a generation: its dimensions and
//! its cells in row-major order, with the neighbour count and the transition
//! rule defined on it. [`universe::Universe`] is the executable grid; every
//! operation on it is specified in terms of the model. [`laws`] holds what is
//! proved of the model for every grid.

pub mod arith;
pub mod cell;
pub mod grid;
pub mod laws;
pub mod universe;

pub use cell::Cell;
pub use universe::Universe;

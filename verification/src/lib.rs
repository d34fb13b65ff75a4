//! A toroidal-grid cellular automaton engine for Conway's Game of Life.
//!
//! The engine owns a flat, row-major grid of binary cells and offers
//! generation stepping on a wrapped (toroidal) topology, a permissive
//! text-pattern parser, pattern placement, and a textual snapshot of the
//! grid, all with verified contracts.

use vstd::prelude::*;

pub mod engine;
pub mod grid;
pub mod pattern;
pub mod render;

pub use crate::grid::Universe;

verus! {

/// The state of a single grid cell.
#[derive(Clone, Copy, Debug, PartialEq, Eq, Structural)]
pub enum Cell {
    Dead,
    Alive,
}

/// The state a cell moves to when it is flipped.
pub open spec fn toggled(c: Cell) -> Cell {
    if c is Alive {
        Cell::Dead
    } else {
        Cell::Alive
    }
}

impl Cell {
    /// Flip a cell between its two states.
    pub fn toggle(&mut self)
        ensures
            *final(self) == toggled(*old(self)),
    {
        *self = match *self {
            Cell::Dead => Cell::Alive,
            Cell::Alive => Cell::Dead,
        };
    }
}

/// How an operation on the universe can fail: a coordinate that maps
/// outside the cell buffer, or a zero-sized grid asked to step.
#[derive(Clone, Copy, Debug, PartialEq, Eq, Structural)]
pub enum GridError {
    OutOfBounds,
    DegenerateGrid,
}

} // verus!

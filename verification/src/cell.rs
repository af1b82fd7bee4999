//! The state of a single cell.

use vstd::prelude::*;

verus! {

/// One cell of the grid: either dead or alive.
#[derive(Clone, Copy, Debug, PartialEq, Eq, Structural)]
pub enum Cell {
    Dead,
    Alive,
}

impl Cell {
    /// What the cell adds to a count of live cells: 1 if alive, 0 if dead.
    pub open spec fn weight(self) -> nat {
        match self {
            Cell::Dead => 0,
            Cell::Alive => 1,
        }
    }

    /// The state that follows this one when `live_neighbours` of the eight
    /// surrounding cells are alive: a live cell survives with two or three
    /// live neighbours, a dead cell comes to life with exactly three.
    pub open spec fn next(self, live_neighbours: nat) -> Cell {
        match self {
            Cell::Alive => if live_neighbours == 2 || live_neighbours == 3 {
                Cell::Alive
            } else {
                Cell::Dead
            },
            Cell::Dead => if live_neighbours == 3 {
                Cell::Alive
            } else {
                Cell::Dead
            },
        }
    }

    /// The cell's contribution to a count of live cells, as a machine integer.
    pub(crate) fn count(self) -> (n: u8)
        ensures
            n == self.weight(),
    {
        match self {
            Cell::Dead => 0,
            Cell::Alive => 1,
        }
    }

    /// Applies the transition rule to one cell.
    pub fn evolve(self, live_neighbours: u8) -> (next: Cell)
        ensures
            next == self.next(live_neighbours as nat),
    {
        match self {
            Cell::Alive => if live_neighbours < 2 {
                Cell::Dead
            } else if live_neighbours < 4 {
                Cell::Alive
            } else {
                Cell::Dead
            },
            Cell::Dead => if live_neighbours == 3 {
                Cell::Alive
            } else {
                Cell::Dead
            },
        }
    }
}

/// The character that stands for a cell in rendered text.
pub open spec fn glyph(cell: Cell) -> char {
    match cell {
        Cell::Dead => '\u{25FB}',
        Cell::Alive => '\u{25FC}',
    }
}

} // verus!

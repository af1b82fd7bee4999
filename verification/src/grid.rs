//! The mathematical model of a generation.

use vstd::prelude::*;
use crate::arith::{
    column_of, flat_index, lemma_index_in_bounds, lemma_index_split, lemma_wrap_step, row_of,
    wrap,
};
use crate::cell::{glyph, Cell};

verus! {

/// A generation of the automaton: `height` rows of `width` cells each, stored
/// row by row in `cells`.
pub struct Grid {
    pub width: nat,
    pub height: nat,
    pub cells: Seq<Cell>,
}

/// The state in which the cell with flat index `i` starts: alive where `i` is
/// a multiple of 2 or of 7.
pub open spec fn seed(i: int) -> Cell {
    if i % 2 == 0 || i % 7 == 0 {
        Cell::Alive
    } else {
        Cell::Dead
    }
}

impl Grid {
    /// The buffer holds exactly one cell for each position of the grid.
    pub open spec fn wf(self) -> bool {
        self.cells.len() == self.width * self.height
    }

    /// Whether `(row, column)` names a cell of the grid.
    pub open spec fn contains(self, row: int, column: int) -> bool {
        0 <= row < self.height && 0 <= column < self.width
    }

    /// The flat index of the cell in row `row` and column `column`.
    pub open spec fn index(self, row: int, column: int) -> int {
        flat_index(row, column, self.width)
    }

    /// The cell stored for `(row, column)`.
    pub open spec fn at(self, row: int, column: int) -> Cell {
        self.cells[self.index(row, column)]
    }

    /// The cell found at `(row, column)` when both coordinates wrap around the
    /// edges of the grid: row `-1` is the last row, row `height` is the first.
    pub open spec fn cell(self, row: int, column: int) -> Cell {
        self.at(wrap(row, self.height), wrap(column, self.width))
    }

    /// The number of live cells among the eight cells that surround
    /// `(row, column)` on the torus.
    pub open spec fn live_neighbours(self, row: int, column: int) -> nat {
        self.cell(row - 1, column - 1).weight() + self.cell(row - 1, column).weight()
            + self.cell(row - 1, column + 1).weight() + self.cell(row, column - 1).weight()
            + self.cell(row, column + 1).weight() + self.cell(row + 1, column - 1).weight()
            + self.cell(row + 1, column).weight() + self.cell(row + 1, column + 1).weight()
    }

    /// The state of the cell at `(row, column)` in the next generation.
    pub open spec fn next_cell(self, row: int, column: int) -> Cell {
        self.cell(row, column).next(self.live_neighbours(row, column))
    }

    /// The next generation: every cell is replaced by its successor, computed
    /// from this generation alone.
    pub open spec fn step(self) -> Grid {
        Grid {
            width: self.width,
            height: self.height,
            cells: Seq::new(
                self.cells.len(),
                |i: int| self.next_cell(row_of(i, self.width), column_of(i, self.width)),
            ),
        }
    }

    /// The generation reached after `n` steps.
    pub open spec fn steps(self, n: nat) -> Grid
        decreases n,
    {
        if n == 0 {
            self
        } else {
            self.steps((n - 1) as nat).step()
        }
    }

    /// The grid of the given dimensions in which every cell is dead.
    pub open spec fn blank(width: nat, height: nat) -> Grid {
        Grid { width, height, cells: Seq::new(width * height, |i: int| Cell::Dead) }
    }

    /// The initial generation: 64 by 64 cells, each in the state that
    /// [`seed`] gives for its flat index.
    pub open spec fn seeded() -> Grid {
        Grid { width: 64, height: 64, cells: Seq::new(4096, |i: int| seed(i)) }
    }

    /// Whether every pair in `coordinates` is a `(row, column)` inside the grid.
    pub open spec fn covers(self, coordinates: Seq<(usize, usize)>) -> bool {
        forall|k: int|
            0 <= k < coordinates.len() ==> self.contains(
                (#[trigger] coordinates[k]).0 as int,
                coordinates[k].1 as int,
            )
    }

    /// Whether one of the pairs in `coordinates` has the flat index `i`.
    pub open spec fn names(self, coordinates: Seq<(usize, usize)>, i: int) -> bool {
        exists|k: int|
            0 <= k < coordinates.len() && self.index(
                (#[trigger] coordinates[k]).0 as int,
                coordinates[k].1 as int,
            ) == i
    }

    /// The grid with every cell named in `coordinates` alive and all other
    /// cells as they are.
    pub open spec fn revive(self, coordinates: Seq<(usize, usize)>) -> Grid {
        Grid {
            width: self.width,
            height: self.height,
            cells: Seq::new(
                self.cells.len(),
                |i: int| if self.names(coordinates, i) {
                    Cell::Alive
                } else {
                    self.cells[i]
                },
            ),
        }
    }

    /// The text of one row: a glyph for each cell from left to right, then a
    /// line break.
    pub open spec fn row_text(self, row: int) -> Seq<char> {
        Seq::new(self.width, |column: int| glyph(self.at(row, column))).push('\n')
    }

    /// The text of the first `rows` rows, one after the other.
    pub open spec fn text_of_rows(self, rows: nat) -> Seq<char>
        decreases rows,
    {
        if rows == 0 {
            Seq::empty()
        } else {
            self.text_of_rows((rows - 1) as nat) + self.row_text(rows - 1)
        }
    }

    /// The text of the whole grid: its rows from top to bottom.
    pub open spec fn text(self) -> Seq<char> {
        self.text_of_rows(self.height)
    }

    /// The position in the text of the glyph for `(row, column)`; in column
    /// `width`, the position of the line break that ends the row.
    pub open spec fn text_index(self, row: int, column: int) -> int {
        row * (self.width + 1) + column
    }

    /// The row reached from `row` by one step up, around the top edge.
    pub open spec fn above(self, row: int) -> int {
        if row == 0 {
            self.height - 1
        } else {
            row - 1
        }
    }

    /// The row reached from `row` by one step down, around the bottom edge.
    pub open spec fn below(self, row: int) -> int {
        if row == self.height - 1 {
            0
        } else {
            row + 1
        }
    }

    /// The column reached from `column` by one step left, around the left edge.
    pub open spec fn left(self, column: int) -> int {
        if column == 0 {
            self.width - 1
        } else {
            column - 1
        }
    }

    /// The column reached from `column` by one step right, around the right edge.
    pub open spec fn right(self, column: int) -> int {
        if column == self.width - 1 {
            0
        } else {
            column + 1
        }
    }

    /// For a cell inside the grid, the eight wrapped neighbours are the cells
    /// stored one step up, down, left and right of it, each step taken around
    /// the edge where the cell lies on one. There are never more than eight
    /// live ones among them.
    pub proof fn lemma_live_neighbours(self, row: int, column: int)
        requires
            self.contains(row, column),
        ensures
            self.contains(self.above(row), self.left(column)),
            self.contains(self.below(row), self.right(column)),
            self.cell(row, column) == self.at(row, column),
            self.live_neighbours(row, column) == self.at(
                self.above(row),
                self.left(column),
            ).weight() + self.at(self.above(row), column).weight() + self.at(
                self.above(row),
                self.right(column),
            ).weight() + self.at(row, self.left(column)).weight() + self.at(
                row,
                self.right(column),
            ).weight() + self.at(self.below(row), self.left(column)).weight() + self.at(
                self.below(row),
                column,
            ).weight() + self.at(self.below(row), self.right(column)).weight(),
            self.live_neighbours(row, column) <= 8,
    {
        lemma_wrap_step(row, self.height);
        lemma_wrap_step(column, self.width);
        assert(wrap(row - 1, self.height) == self.above(row));
        assert(wrap(row + 1, self.height) == self.below(row));
        assert(wrap(column - 1, self.width) == self.left(column));
        assert(wrap(column + 1, self.width) == self.right(column));
    }

    /// In the next generation, the cell stored for a position inside the grid
    /// is the successor of the cell stored there now, given the number of its
    /// live neighbours now.
    pub proof fn lemma_step_at(self, row: int, column: int)
        requires
            self.wf(),
            self.contains(row, column),
        ensures
            0 <= self.index(row, column) < self.cells.len(),
            self.step().at(row, column) == self.at(row, column).next(
                self.live_neighbours(row, column),
            ),
    {
        lemma_index_in_bounds(row, column, self.width, self.height);
        lemma_index_split(row, column, self.width);
        self.lemma_live_neighbours(row, column);
    }
}

} // verus!

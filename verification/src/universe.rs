//! The executable grid.

use vstd::prelude::*;
use vstd::string::StringExecFns;
use crate::arith::{flat_index, lemma_index_in_bounds, lemma_index_order};
use crate::cell::{glyph, Cell};
use crate::grid::{seed, Grid};

verus! {

/// A toroidal grid of cells that advances one generation per [`Universe::tick`].
pub struct Universe {
    width: usize,
    height: usize,
    cells: Vec<Cell>,
}

impl View for Universe {
    type V = Grid;

    closed spec fn view(&self) -> Grid {
        Grid { width: self.width as nat, height: self.height as nat, cells: self.cells@ }
    }
}

/// A buffer of `len` dead cells.
fn dead_cells(len: usize) -> (cells: Vec<Cell>)
    ensures
        cells@ == Seq::new(len as nat, |i: int| Cell::Dead),
{
    let mut cells: Vec<Cell> = Vec::new();
    let mut i: usize = 0;
    while i < len
        invariant
            i <= len,
            cells@ == Seq::new(i as nat, |k: int| Cell::Dead),
        decreases len - i,
    {
        cells.push(Cell::Dead);
        i = i + 1;
    }
    cells
}

impl Universe {
    /// The buffer holds exactly `width * height` cells.
    pub open spec fn wf(&self) -> bool {
        self@.wf()
    }

    /// Creates the 64 by 64 universe with its fixed initial pattern.
    pub fn new() -> (universe: Universe)
        ensures
            universe.wf(),
            universe@ == Grid::seeded(),
    {
        let width: usize = 64;
        let height: usize = 64;
        let mut cells: Vec<Cell> = Vec::new();
        let mut i: usize = 0;
        while i < 4096
            invariant
                i <= 4096,
                cells@ == Seq::new(i as nat, |k: int| seed(k)),
            decreases 4096 - i,
        {
            let cell = if i % 2 == 0 || i % 7 == 0 {
                Cell::Alive
            } else {
                Cell::Dead
            };
            cells.push(cell);
            i = i + 1;
        }
        Universe { width, height, cells }
    }

    /// The number of columns.
    pub fn width(&self) -> (width: usize)
        ensures
            width == self@.width,
    {
        self.width
    }

    /// The number of rows.
    pub fn height(&self) -> (height: usize)
        ensures
            height == self@.height,
    {
        self.height
    }

    /// The cells in row-major order, one element per cell.
    pub fn cells(&self) -> (cells: &[Cell])
        ensures
            cells@ == self@.cells,
    {
        self.cells.as_slice()
    }

    /// The dead and alive values of the entire universe, in row-major order.
    pub fn get_cells(&self) -> (cells: &[Cell])
        ensures
            cells@ == self@.cells,
    {
        self.cells.as_slice()
    }

    /// The flat index of the cell at `(row, column)`.
    pub fn index(&self, row: usize, column: usize) -> (index: usize)
        requires
            self.wf(),
            self@.contains(row as int, column as int),
        ensures
            index == self@.index(row as int, column as int),
            index < self@.cells.len(),
    {
        proof {
            reveal(flat_index);
            lemma_index_in_bounds(row as int, column as int, self.width as nat, self.height as nat);
            assert(self.width as nat * self.height as nat == self.cells.len());
        }
        row * self.width + column
    }

    /// The row one step up from `row`, around the top edge.
    fn above(&self, row: usize) -> (north: usize)
        requires
            row < self@.height,
        ensures
            north == self@.above(row as int),
            north < self@.height,
    {
        if row == 0 {
            self.height - 1
        } else {
            row - 1
        }
    }

    /// The row one step down from `row`, around the bottom edge.
    fn below(&self, row: usize) -> (south: usize)
        requires
            row < self@.height,
        ensures
            south == self@.below(row as int),
            south < self@.height,
    {
        if row == self.height - 1 {
            0
        } else {
            row + 1
        }
    }

    /// The column one step left of `column`, around the left edge.
    fn left(&self, column: usize) -> (west: usize)
        requires
            column < self@.width,
        ensures
            west == self@.left(column as int),
            west < self@.width,
    {
        if column == 0 {
            self.width - 1
        } else {
            column - 1
        }
    }

    /// The column one step right of `column`, around the right edge.
    fn right(&self, column: usize) -> (east: usize)
        requires
            column < self@.width,
        ensures
            east == self@.right(column as int),
            east < self@.width,
    {
        if column == self.width - 1 {
            0
        } else {
            column + 1
        }
    }

    /// What the cell stored at `(row, column)` adds to a count of live cells.
    fn weight_at(&self, row: usize, column: usize) -> (weight: u8)
        requires
            self.wf(),
            self@.contains(row as int, column as int),
        ensures
            weight == self@.at(row as int, column as int).weight(),
            weight <= 1,
    {
        self.cells[self.index(row, column)].count()
    }

    /// Counts the live cells among the eight neighbours of `(row, column)`,
    /// wrapping around every edge of the grid.
    pub fn live_neighbour_count(&self, row: usize, column: usize) -> (count: u8)
        requires
            self.wf(),
            self@.contains(row as int, column as int),
        ensures
            count == self@.live_neighbours(row as int, column as int),
            count <= 8,
    {
        let north: usize = self.above(row);
        let south: usize = self.below(row);
        let west: usize = self.left(column);
        let east: usize = self.right(column);
        let nw: u8 = self.weight_at(north, west);
        let n: u8 = self.weight_at(north, column);
        let ne: u8 = self.weight_at(north, east);
        let w: u8 = self.weight_at(row, west);
        let e: u8 = self.weight_at(row, east);
        let sw: u8 = self.weight_at(south, west);
        let s: u8 = self.weight_at(south, column);
        let se: u8 = self.weight_at(south, east);
        let count: u8 = nw + n + ne + w + e + sw + s + se;
        proof {
            self@.lemma_live_neighbours(row as int, column as int);
        }
        count
    }

    /// Advances the universe by one generation. Every cell's successor is
    /// computed from the generation before the call.
    pub fn tick(&mut self)
        requires
            old(self).wf(),
        ensures
            final(self).wf(),
            final(self)@ == old(self)@.step(),
    {
        let ghost next_grid = self@.step();
        let mut next: Vec<Cell> = Vec::new();
        let mut row: usize = 0;
        proof {
            lemma_index_order(0, 0, self.width as nat, self.height as nat);
        }
        while row < self.height
            invariant
                *self == *old(self),
                self.wf(),
                next_grid == self@.step(),
                row <= self.height,
                next@.len() == self@.index(row as int, 0),
                forall|i: int| 0 <= i < next@.len() ==> next@[i] == next_grid.cells[i],
            decreases self.height - row,
        {
            let mut column: usize = 0;
            while column < self.width
                invariant
                    *self == *old(self),
                    self.wf(),
                    next_grid == self@.step(),
                    row < self.height,
                    column <= self.width,
                    next@.len() == self@.index(row as int, column as int),
                    forall|i: int| 0 <= i < next@.len() ==> next@[i] == next_grid.cells[i],
                decreases self.width - column,
            {
                let index: usize = self.index(row, column);
                let live_neighbours: u8 = self.live_neighbour_count(row, column);
                let cell = self.cells[index].evolve(live_neighbours);
                proof {
                    self@.lemma_step_at(row as int, column as int);
                    lemma_index_order(
                        row as int,
                        column as int,
                        self.width as nat,
                        self.height as nat,
                    );
                }
                next.push(cell);
                column = column + 1;
            }
            proof {
                lemma_index_order(row as int, 0, self.width as nat, self.height as nat);
            }
            row = row + 1;
        }
        proof {
            lemma_index_order(0, 0, self.width as nat, self.height as nat);
            assert(next@ =~= next_grid.cells);
        }
        self.cells = next;
    }

    /// Sets the number of columns and resets every cell to dead.
    pub fn set_width(&mut self, width: usize)
        requires
            old(self).wf(),
            width * old(self)@.height <= usize::MAX,
        ensures
            final(self).wf(),
            final(self)@ == Grid::blank(width as nat, old(self)@.height),
    {
        self.width = width;
        self.cells = dead_cells(width * self.height);
    }

    /// Sets the number of rows and resets every cell to dead.
    pub fn set_height(&mut self, height: usize)
        requires
            old(self).wf(),
            old(self)@.width * height <= usize::MAX,
        ensures
            final(self).wf(),
            final(self)@ == Grid::blank(old(self)@.width, height as nat),
    {
        self.height = height;
        self.cells = dead_cells(self.width * height);
    }

    /// Brings to life each cell named by a `(row, column)` pair of
    /// `coordinates`; all other cells stay as they are.
    pub fn set_cells(&mut self, coordinates: &[(usize, usize)])
        requires
            old(self).wf(),
            old(self)@.covers(coordinates@),
        ensures
            final(self).wf(),
            final(self)@ == old(self)@.revive(coordinates@),
    {
        let ghost before = self@;
        proof {
            assert(before.revive(coordinates@.take(0)).cells =~= before.cells);
        }
        let mut k: usize = 0;
        while k < coordinates.len()
            invariant
                k <= coordinates.len(),
                self.wf(),
                before.wf(),
                before.covers(coordinates@),
                self@ == before.revive(coordinates@.take(k as int)),
            decreases coordinates.len() - k,
        {
            let (row, column): (usize, usize) = coordinates[k];
            let index: usize = self.index(row, column);
            self.cells[index] = Cell::Alive;
            proof {
                let done = coordinates@.take(k as int);
                let more = coordinates@.take(k + 1);
                assert forall|i: int| 0 <= i < before.cells.len() implies before.names(more, i)
                    == (before.names(done, i) || i == index) by {
                    if before.names(done, i) {
                        let j = choose|j: int|
                            0 <= j < done.len() && before.index(
                                (#[trigger] done[j]).0 as int,
                                done[j].1 as int,
                            ) == i;
                        assert(more[j] == done[j]);
                    }
                    if i == index {
                        assert(more[k as int] == coordinates@[k as int]);
                    }
                    if before.names(more, i) {
                        let j = choose|j: int|
                            0 <= j < more.len() && before.index(
                                (#[trigger] more[j]).0 as int,
                                more[j].1 as int,
                            ) == i;
                        if j < k {
                            assert(done[j] == more[j]);
                        }
                    }
                }
                assert(self@.cells =~= before.revive(more).cells);
            }
            k = k + 1;
        }
        proof {
            assert(coordinates@.take(k as int) =~= coordinates@);
        }
    }

    /// Renders the universe as text: one line per row, one glyph per cell.
    pub fn render(&self) -> (text: String)
        requires
            self.wf(),
        ensures
            text@ == self@.text(),
    {
        let mut text = String::new();
        let mut row: usize = 0;
        while row < self.height
            invariant
                self.wf(),
                row <= self.height,
                text@ == self@.text_of_rows(row as nat),
            decreases self.height - row,
        {
            let ghost above = text@;
            let mut column: usize = 0;
            while column < self.width
                invariant
                    self.wf(),
                    row < self.height,
                    column <= self.width,
                    text@ == above + Seq::new(
                        column as nat,
                        |c: int| glyph(self@.at(row as int, c)),
                    ),
                decreases self.width - column,
            {
                let ghost line = text@;
                let index: usize = self.index(row, column);
                proof {
                    reveal_strlit("\u{25FB}");
                    reveal_strlit("\u{25FC}");
                }
                match self.cells[index] {
                    Cell::Dead => text.append("\u{25FB}"),
                    Cell::Alive => text.append("\u{25FC}"),
                }
                proof {
                    assert(text@ =~= line.push(glyph(self@.at(row as int, column as int))));
                    assert(text@ =~= above + Seq::new(
                        (column + 1) as nat,
                        |c: int| glyph(self@.at(row as int, c)),
                    ));
                }
                column = column + 1;
            }
            proof {
                reveal_strlit("\n");
            }
            text.append("\n");
            proof {
                assert(text@ =~= above + self@.row_text(row as int));
            }
            row = row + 1;
        }
        text
    }
}

impl Default for Universe {
    /// The universe that [`Universe::new`] creates.
    fn default() -> (universe: Universe)
        ensures
            universe.wf(),
            universe@ == Grid::seeded(),
    {
        Universe::new()
    }
}

} // verus!

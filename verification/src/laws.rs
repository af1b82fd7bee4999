//! Laws of the model that hold of every grid.

use vstd::prelude::*;
use crate::arith::{lemma_index_in_bounds, lemma_index_split};
use crate::cell::{glyph, Cell};
use crate::grid::Grid;

verus! {

/// A blank grid of any dimensions is well formed: its buffer holds
/// `width * height` cells, and each of them is dead.
pub proof fn lemma_blank_grid(width: nat, height: nat)
    ensures
        Grid::blank(width, height).wf(),
        Grid::blank(width, height).width == width,
        Grid::blank(width, height).height == height,
        Grid::blank(width, height).cells.len() == width * height,
        forall|i: int|
            0 <= i < width * height ==> #[trigger] Grid::blank(width, height).cells[i]
                == Cell::Dead,
{
}

/// The initial generation is well formed, 64 cells wide and 64 cells high.
pub proof fn lemma_seeded_grid()
    ensures
        Grid::seeded().wf(),
        Grid::seeded().cells.len() == 64 * 64,
{
}

/// Bringing cells to life changes neither the dimensions of a grid nor the
/// length of its buffer.
pub proof fn lemma_revive_keeps_shape(grid: Grid, coordinates: Seq<(usize, usize)>)
    requires
        grid.wf(),
    ensures
        grid.revive(coordinates).wf(),
        grid.revive(coordinates).width == grid.width,
        grid.revive(coordinates).height == grid.height,
{
}

/// After cells are brought to life, a cell of the grid is alive if its
/// coordinates are among those given, and is as it was if they are not.
pub proof fn lemma_revive_at(
    grid: Grid,
    coordinates: Seq<(usize, usize)>,
    row: usize,
    column: usize,
)
    requires
        grid.wf(),
        grid.covers(coordinates),
        grid.contains(row as int, column as int),
    ensures
        grid.revive(coordinates).at(row as int, column as int) == (if coordinates.contains(
            (row, column),
        ) {
            Cell::Alive
        } else {
            grid.at(row as int, column as int)
        }),
{
    let i = grid.index(row as int, column as int);
    lemma_index_in_bounds(row as int, column as int, grid.width, grid.height);
    lemma_index_split(row as int, column as int, grid.width);
    if coordinates.contains((row, column)) {
        let k = choose|k: int| 0 <= k < coordinates.len() && coordinates[k] == (row, column);
        assert(grid.index(coordinates[k].0 as int, coordinates[k].1 as int) == i);
        assert(grid.names(coordinates, i));
    } else if grid.names(coordinates, i) {
        let k = choose|k: int|
            0 <= k < coordinates.len() && grid.index(
                (#[trigger] coordinates[k]).0 as int,
                coordinates[k].1 as int,
            ) == i;
        lemma_index_split(coordinates[k].0 as int, coordinates[k].1 as int, grid.width);
        assert(coordinates[k] == (row, column));
    }
}

/// The transition rule, case by case: a live cell dies with fewer than two
/// live neighbours, lives on with two or three, and dies with four or more; a
/// dead cell comes to life with exactly three and stays dead otherwise.
pub proof fn lemma_transition_table(live_neighbours: nat)
    ensures
        live_neighbours < 2 ==> Cell::Alive.next(live_neighbours) == Cell::Dead,
        2 <= live_neighbours < 4 ==> Cell::Alive.next(live_neighbours) == Cell::Alive,
        live_neighbours >= 4 ==> Cell::Alive.next(live_neighbours) == Cell::Dead,
        live_neighbours == 3 ==> Cell::Dead.next(live_neighbours) == Cell::Alive,
        live_neighbours != 3 ==> Cell::Dead.next(live_neighbours) == Cell::Dead,
{
}

/// A step changes neither the dimensions of a grid nor the length of its
/// buffer, however many steps are taken.
pub proof fn lemma_steps_keep_shape(grid: Grid, n: nat)
    requires
        grid.wf(),
    ensures
        grid.steps(n).wf(),
        grid.steps(n).width == grid.width,
        grid.steps(n).height == grid.height,
    decreases n,
{
    if n > 0 {
        lemma_steps_keep_shape(grid, (n - 1) as nat);
    }
}

/// The grid is a torus: each corner cell counts the cell in the diagonally
/// opposite corner among its neighbours.
pub proof fn lemma_corners_wrap(grid: Grid)
    requires
        grid.wf(),
        grid.width > 0,
        grid.height > 0,
    ensures
        grid.live_neighbours(0, 0) >= grid.at(grid.height - 1, grid.width - 1).weight(),
        grid.live_neighbours(0, grid.width - 1) >= grid.at(grid.height - 1, 0).weight(),
        grid.live_neighbours(grid.height - 1, 0) >= grid.at(0, grid.width - 1).weight(),
        grid.live_neighbours(grid.height - 1, grid.width - 1) >= grid.at(0, 0).weight(),
{
    grid.lemma_live_neighbours(0, 0);
    grid.lemma_live_neighbours(0, grid.width - 1);
    grid.lemma_live_neighbours(grid.height - 1, 0);
    grid.lemma_live_neighbours(grid.height - 1, grid.width - 1);
}

/// Two grids that are equal are still equal after the same number of steps:
/// a generation is determined by the one before it and by nothing else.
pub proof fn lemma_steps_deterministic(first: Grid, second: Grid, n: nat)
    requires
        first == second,
    ensures
        first.steps(n) == second.steps(n),
{
}

/// The text of a grid is a function of the grid: rendering twice, with no
/// change to the grid in between, gives the same text both times.
pub proof fn lemma_text_repeatable(grid: Grid, first: Seq<char>, second: Seq<char>)
    requires
        first == grid.text(),
        second == grid.text(),
    ensures
        first == second,
{
}

/// The first `rows` rows of text hold `width + 1` characters each.
proof fn lemma_text_of_rows_len(grid: Grid, rows: nat)
    ensures
        grid.text_of_rows(rows).len() == rows * (grid.width + 1),
    decreases rows,
{
    if rows > 0 {
        lemma_text_of_rows_len(grid, (rows - 1) as nat);
        assert((rows - 1) * (grid.width + 1) + (grid.width + 1) == rows * (grid.width + 1))
            by (nonlinear_arith);
    }
}

/// Within the first `rows` rows of text, the character for a position of
/// row `row` is the glyph of the cell, or the line break after the last one.
proof fn lemma_text_of_rows_char(grid: Grid, rows: nat, row: int, column: int)
    requires
        0 <= row < rows,
        0 <= column <= grid.width,
    ensures
        0 <= grid.text_index(row, column) < grid.text_of_rows(rows).len(),
        grid.text_of_rows(rows)[grid.text_index(row, column)] == (if column == grid.width {
            '\n'
        } else {
            glyph(grid.at(row, column))
        }),
    decreases rows,
{
    let before = grid.text_of_rows((rows - 1) as nat);
    lemma_text_of_rows_len(grid, (rows - 1) as nat);
    lemma_text_of_rows_len(grid, rows);
    let line = grid.width + 1;
    if row == rows - 1 {
        assert(grid.text_of_rows(rows)[before.len() + column] == grid.row_text(row)[column]);
    } else {
        lemma_text_of_rows_char(grid, (rows - 1) as nat, row, column);
        assert(row * line + column < (rows - 1) * line) by (nonlinear_arith)
            requires
                0 <= row < rows - 1,
                0 <= column < line,
        ;
    }
}

/// The layout of rendered text: `height` lines of `width + 1` characters; in
/// line `row`, the glyph of the cell at `(row, column)` stands in column
/// `column`, and a line break ends the line.
pub proof fn lemma_text_layout(grid: Grid, row: int, column: int)
    requires
        grid.contains(row, column),
    ensures
        grid.text().len() == grid.height * (grid.width + 1),
        0 <= grid.text_index(row, column) < grid.text().len(),
        0 <= grid.text_index(row, grid.width as int) < grid.text().len(),
        grid.text()[grid.text_index(row, column)] == glyph(grid.at(row, column)),
        grid.text()[grid.text_index(row, grid.width as int)] == '\n',
{
    lemma_text_of_rows_len(grid, grid.height);
    lemma_text_of_rows_char(grid, grid.height, row, column);
    lemma_text_of_rows_char(grid, grid.height, row, grid.width as int);
}

} // verus!

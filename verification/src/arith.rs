//! Row-major indexing and wrap-around coordinates.
//!
//! The functions defined here are the only places where the model multiplies,
//! divides or takes a remainder by a dimension of the grid. They are opaque:
//! proofs elsewhere use the lemmas below, or reveal a definition where they
//! need it.

use vstd::prelude::*;
use vstd::arithmetic::div_mod::{
    lemma_fundamental_div_mod_converse_div, lemma_fundamental_div_mod_converse_mod,
    lemma_mod_add_multiples_vanish, lemma_small_mod,
};

verus! {

/// The position that `x` denotes on a ring of `n` positions: `x` modulo `n`.
#[verifier::opaque]
pub open spec fn wrap(x: int, n: nat) -> int {
    x % (n as int)
}

/// The flat index of the cell at `(row, column)` in a grid `width` cells wide,
/// whose cells are stored row by row.
#[verifier::opaque]
pub open spec fn flat_index(row: int, column: int, width: nat) -> int {
    row * width + column
}

/// The row of the cell with flat index `index` in a grid `width` cells wide.
#[verifier::opaque]
pub open spec fn row_of(index: int, width: nat) -> int {
    index / (width as int)
}

/// The column of the cell with flat index `index` in a grid `width` cells wide.
#[verifier::opaque]
pub open spec fn column_of(index: int, width: nat) -> int {
    index % (width as int)
}

/// A cell inside a grid of `height` rows and `width` columns has a flat index
/// inside the buffer of `width * height` cells.
pub proof fn lemma_index_in_bounds(row: int, column: int, width: nat, height: nat)
    requires
        0 <= row < height,
        0 <= column < width,
    ensures
        0 <= flat_index(row, column, width) < width * height,
{
    reveal(flat_index);
    assert(0 <= row * width + column < width * height) by (nonlinear_arith)
        requires
            0 <= row < height,
            0 <= column < width,
    ;
}

/// Flat indices follow the cells row by row: the first cell has index 0, the
/// next cell of a row the next index, the first cell of the next row the index
/// after the last cell of this row, and `height` rows hold `width * height`
/// cells.
pub proof fn lemma_index_order(row: int, column: int, width: nat, height: nat)
    ensures
        flat_index(0, 0, width) == 0,
        flat_index(row, column + 1, width) == flat_index(row, column, width) + 1,
        flat_index(row + 1, 0, width) == flat_index(row, width as int, width),
        flat_index(height as int, 0, width) == width * height,
{
    reveal(flat_index);
    assert((row + 1) * width == row * width + width) by (nonlinear_arith);
    assert(height * width == width * height) by (nonlinear_arith);
}

/// Row and column are recovered from the flat index of a cell.
pub proof fn lemma_index_split(row: int, column: int, width: nat)
    requires
        0 <= column < width,
    ensures
        row_of(flat_index(row, column, width), width) == row,
        column_of(flat_index(row, column, width), width) == column,
{
    reveal(flat_index);
    reveal(row_of);
    reveal(column_of);
    lemma_fundamental_div_mod_converse_div(row * width + column, width as int, row, column);
    lemma_fundamental_div_mod_converse_mod(row * width + column, width as int, row, column);
}

/// One step back or forth from `x` on a ring of `n` positions stays on the
/// ring, passing from the first position to the last and from the last to the
/// first.
pub proof fn lemma_wrap_step(x: int, n: nat)
    requires
        0 <= x < n,
    ensures
        wrap(x, n) == x,
        wrap(x - 1, n) == (if x == 0 {
            n - 1
        } else {
            x - 1
        }),
        wrap(x + 1, n) == (if x == n - 1 {
            0
        } else {
            x + 1
        }),
{
    reveal(wrap);
    let m = n as int;
    lemma_small_mod(x as nat, n);
    if x == 0 {
        lemma_mod_add_multiples_vanish(-1, m);
        lemma_small_mod((n - 1) as nat, n);
    } else {
        lemma_small_mod((x - 1) as nat, n);
    }
    if x == n - 1 {
        lemma_mod_add_multiples_vanish(0, m);
        lemma_small_mod(0, n);
    } else {
        lemma_small_mod((x + 1) as nat, n);
    }
}

} // verus!

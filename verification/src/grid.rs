//! Toroidal grid indexing arithmetic.
//!
//! A cell of a `width x width` grid is a linear index in `[0, width * width)`;
//! its row is `index / width` and its column is `index % width`.  Moving off
//! one edge of the grid re-enters on the opposite edge.

use vstd::arithmetic::div_mod::{
    lemma_fundamental_div_mod, lemma_fundamental_div_mod_converse, lemma_mod_pos_bound,
    lemma_small_mod, lemma_mod_multiples_vanish, lemma_div_pos_is_pos,
};
use vstd::prelude::*;

verus! {

/// A cardinal direction of movement on the grid.
#[derive(Clone, Copy, Debug, PartialEq, Eq, Structural)]
pub enum Direction {
    Up,
    Down,
    Right,
    Left,
}

/// Row of a linear index on a `width x width` grid.
pub open spec fn row_of(width: int, idx: int) -> int {
    idx / width
}

/// Column of a linear index on a `width x width` grid.
pub open spec fn col_of(width: int, idx: int) -> int {
    idx % width
}

/// The cell one move away from `idx` in direction `dir`, wrapping at the
/// edges of the toroidal `width x width` grid.
pub open spec fn next_index(width: int, idx: int, dir: Direction) -> int {
    let row = row_of(width, idx);
    let col = col_of(width, idx);
    match dir {
        Direction::Right => if col + 1 == width { row * width } else { idx + 1 },
        Direction::Left => if col == 0 { row * width + (width - 1) } else { idx - 1 },
        Direction::Up => if row == 0 { (width - 1) * width + col } else { idx - width },
        Direction::Down => if row + 1 == width { col } else { idx + width },
    }
}

/// A valid linear index decomposes into its row and column.
pub proof fn lemma_grid_decompose(width: int, idx: int)
    requires
        1 <= width,
        0 <= idx < width * width,
    ensures
        idx == row_of(width, idx) * width + col_of(width, idx),
        0 <= col_of(width, idx) < width,
        0 <= row_of(width, idx) < width,
{
    lemma_fundamental_div_mod(idx, width);
    lemma_mod_pos_bound(idx, width);
    lemma_div_pos_is_pos(idx, width);
    assert((idx / width) * width == width * (idx / width)) by (nonlinear_arith);
    if row_of(width, idx) >= width {
        assert(width * (idx / width) >= width * width) by (nonlinear_arith)
            requires
                idx / width >= width,
                width >= 1,
        ;
        assert(false);
    }
}

/// A row and a column compose into a valid linear index.
pub proof fn lemma_grid_compose(width: int, row: int, col: int)
    requires
        1 <= width,
        0 <= row < width,
        0 <= col < width,
    ensures
        0 <= row * width + col < width * width,
        row_of(width, row * width + col) == row,
        col_of(width, row * width + col) == col,
{
    assert(0 <= row * width + col < width * width) by (nonlinear_arith)
        requires
            width >= 1,
            0 <= row < width,
            0 <= col < width,
    ;
    lemma_fundamental_div_mod_converse(row * width + col, width, row, col);
}

/// Toroidal stepping is correct at every position, edges included: a move
/// keeps the coordinate it does not travel along, advances the other one by
/// one modulo `width`, and always lands inside the grid.
pub proof fn lemma_next_index_wraps(width: int, idx: int, dir: Direction)
    requires
        1 <= width,
        0 <= idx < width * width,
    ensures
        0 <= next_index(width, idx, dir) < width * width,
        dir == Direction::Right || dir == Direction::Left ==> row_of(
            width,
            next_index(width, idx, dir),
        ) == row_of(width, idx),
        dir == Direction::Up || dir == Direction::Down ==> col_of(
            width,
            next_index(width, idx, dir),
        ) == col_of(width, idx),
        dir == Direction::Right ==> col_of(width, next_index(width, idx, dir)) == (col_of(
            width,
            idx,
        ) + 1) % width,
        dir == Direction::Left ==> col_of(width, next_index(width, idx, dir)) == (col_of(
            width,
            idx,
        ) + width - 1) % width,
        dir == Direction::Up ==> row_of(width, next_index(width, idx, dir)) == (row_of(width, idx)
            + width - 1) % width,
        dir == Direction::Down ==> row_of(width, next_index(width, idx, dir)) == (row_of(
            width,
            idx,
        ) + 1) % width,
{
    let row = row_of(width, idx);
    let col = col_of(width, idx);
    lemma_grid_decompose(width, idx);
    match dir {
        Direction::Right => {
            if col + 1 == width {
                lemma_grid_compose(width, row, 0);
                lemma_fundamental_div_mod_converse(width, width, 1, 0);
            } else {
                lemma_grid_compose(width, row, col + 1);
                lemma_small_mod((col + 1) as nat, width as nat);
            }
        },
        Direction::Left => {
            if col == 0 {
                lemma_grid_compose(width, row, width - 1);
                lemma_small_mod((width - 1) as nat, width as nat);
            } else {
                lemma_grid_compose(width, row, col - 1);
                lemma_mod_multiples_vanish(1, col - 1, width);
                lemma_small_mod((col - 1) as nat, width as nat);
            }
        },
        Direction::Up => {
            if row == 0 {
                lemma_grid_compose(width, width - 1, col);
                lemma_small_mod((width - 1) as nat, width as nat);
            } else {
                lemma_grid_compose(width, row - 1, col);
                assert((row - 1) * width == row * width - width) by (nonlinear_arith);
                lemma_mod_multiples_vanish(1, row - 1, width);
                lemma_small_mod((row - 1) as nat, width as nat);
            }
        },
        Direction::Down => {
            if row + 1 == width {
                lemma_grid_compose(width, 0, col);
                lemma_fundamental_div_mod_converse(width, width, 1, 0);
            } else {
                lemma_grid_compose(width, row + 1, col);
                assert((row + 1) * width == row * width + width) by (nonlinear_arith);
                lemma_small_mod((row + 1) as nat, width as nat);
            }
        },
    }
}

} // verus!

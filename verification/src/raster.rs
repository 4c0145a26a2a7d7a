//! Grids of pixels stored row by row, and the two operations that composing
//! a frame needs: filling a grid and copying a rectangle between grids.

use ndarray::{ArrayView2, ArrayViewMut2, Axis, Slice};
use vstd::arithmetic::div_mod::{
    lemma_fundamental_div_mod, lemma_fundamental_div_mod_converse, lemma_mod_bound,
};
use vstd::prelude::*;

verus! {

/// The pixel on row `row` and column `col` of a grid that is stored row by
/// row, `cols` pixels to the row.
pub open spec fn cell(cells: Seq<u8>, cols: int, row: int, col: int) -> u8 {
    cells[row * cols + col]
}

/// A row and a column of a grid name one of its cells.
pub proof fn lemma_cell_in_grid(rows: int, cols: int, row: int, col: int)
    by (nonlinear_arith)
    requires
        0 <= row < rows,
        0 <= col < cols,
    ensures
        0 <= row * cols + col < rows * cols,
{
}

/// A cell of a grid has a row and a column.
pub proof fn lemma_row_col(i: int, rows: int, cols: int)
    by (nonlinear_arith)
    requires
        0 <= i < rows * cols,
        0 < cols,
    ensures
        0 <= i / cols < rows,
        0 <= i % cols < cols,
        (i / cols) * cols + i % cols == i,
{
}

/// The cell on a row and a column of a grid has that row and that column.
pub proof fn lemma_index_row_col(cols: int, row: int, col: int)
    requires
        0 <= col < cols,
    ensures
        (row * cols + col) / cols == row,
        (row * cols + col) % cols == col,
{
    lemma_fundamental_div_mod_converse(row * cols + col, cols, row, col);
}

/// Moving a place by whole tiles of `side` pixels moves its tile by as many
/// and leaves its place within the tile.
pub proof fn lemma_shift_tiles(at: int, tiles: int, side: int)
    requires
        0 < side,
    ensures
        (at + tiles * side) / side == at / side + tiles,
        (at + tiles * side) % side == at % side,
{
    lemma_fundamental_div_mod(at, side);
    lemma_mod_bound(at, side);
    assert((at / side + tiles) * side + at % side == at + tiles * side) by (nonlinear_arith)
        requires
            at == side * (at / side) + at % side,
    ;
    lemma_fundamental_div_mod_converse(at + tiles * side, side, at / side + tiles, at % side);
}

/// A rectangle of a grid: the rows from `top` up to, not including, `bottom`,
/// and the columns from `left` up to, not including, `right`.
#[derive(Clone, Copy, Debug)]
pub struct Region {
    pub top: usize,
    pub left: usize,
    pub bottom: usize,
    pub right: usize,
}

impl Region {
    /// The rectangle lies within a grid of `rows` rows and `cols` columns.
    pub open spec fn fits(self, rows: int, cols: int) -> bool {
        self.top <= self.bottom <= rows && self.left <= self.right <= cols
    }

    /// The rectangle covers the given row and column.
    pub open spec fn covers(self, row: int, col: int) -> bool {
        self.top <= row < self.bottom && self.left <= col < self.right
    }

    /// Two rectangles have the same height and width.
    pub open spec fn same_size(self, other: Region) -> bool {
        self.bottom - self.top == other.bottom - other.top && self.right - self.left == other.right
            - other.left
    }
}

/// Calls ndarray's `ArrayViewMut2::from_shape` on the vector and `fill` on the
/// view. The view takes the first `rows * cols` pixels of the vector as a
/// grid in row-major order, and `fill` sets each of them to `value`; the
/// pixels behind them, and the vector's length, stay as they were.
#[verifier::external_body]
pub(crate) fn fill_grid(cells: &mut Vec<u8>, rows: usize, cols: usize, value: u8)
    requires
        0 < rows,
        0 < cols,
        rows * cols <= old(cells).len(),
    ensures
        final(cells).len() == old(cells).len(),
        forall|i: int|
            0 <= i < old(cells).len() ==> #[trigger] final(cells)[i] == (if i < rows * cols {
                value
            } else {
                old(cells)[i]
            }),
{
    ArrayViewMut2::from_shape((rows, cols), &mut cells[..]).expect("shape").fill(value);
}

/// Calls ndarray's `from_shape` on both vectors, `slice_axis` and
/// `slice_axis_mut` on the views, and `assign`. Both views are grids in
/// row-major order over the first `rows * cols` pixels of their vector. The
/// pixels of rectangle `from` of the source grid are copied, row for row and
/// column for column, to rectangle `to` of the target grid. Every other
/// pixel of the target vector, and its length, stay as they were.
#[verifier::external_body]
pub(crate) fn copy_region(
    target: &mut Vec<u8>,
    rows: usize,
    cols: usize,
    to: Region,
    source: &Vec<u8>,
    source_rows: usize,
    source_cols: usize,
    from: Region,
)
    requires
        0 < rows,
        0 < cols,
        rows * cols <= old(target).len(),
        0 < source_rows,
        0 < source_cols,
        source_rows * source_cols <= source.len(),
        to.fits(rows as int, cols as int),
        from.fits(source_rows as int, source_cols as int),
        to.same_size(from),
    ensures
        final(target).len() == old(target).len(),
        forall|row: int, col: int|
            0 <= row < rows && 0 <= col < cols ==> #[trigger] cell(
                final(target)@,
                cols as int,
                row,
                col,
            ) == (if to.covers(row, col) {
                cell(source@, source_cols as int, from.top + row - to.top, from.left + col - to.left)
            } else {
                cell(old(target)@, cols as int, row, col)
            }),
        forall|i: int|
            rows * cols <= i < old(target).len() ==> #[trigger] final(target)[i] == old(target)[i],
{
    let mut grid = ArrayViewMut2::from_shape((rows, cols), &mut target[..]).expect("shape");
    let sheet = ArrayView2::from_shape((source_rows, source_cols), &source[..]).expect("shape");
    let band = sheet.slice_axis(Axis(0), Slice::from(from.top..from.bottom));
    let tile = band.slice_axis(Axis(1), Slice::from(from.left..from.right));
    let mut rows_to = grid.slice_axis_mut(Axis(0), Slice::from(to.top..to.bottom));
    rows_to.slice_axis_mut(Axis(1), Slice::from(to.left..to.right)).assign(&tile);
}

} // verus!

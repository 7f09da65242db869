//! A fixed-size two-dimensional grid of machine words, stored row-major,
//! used as the dynamic-programming table of the line-diff computation.

use vstd::prelude::*;

use crate::text::push_number;

verus! {

/// Rejected grid accesses: the coordinates lie outside the grid.
#[derive(Clone, Copy, Debug, PartialEq, Eq, Structural)]
pub struct OutOfBounds;

/// A `rows` by `cols` grid of machine words, all cells zero at creation.
pub struct Grid {
    rows: usize,
    cols: usize,
    elems: Vec<usize>,
}

impl Grid {
    /// The number of rows.
    pub closed spec fn rows_spec(self) -> usize {
        self.rows
    }

    /// The number of columns.
    pub closed spec fn cols_spec(self) -> usize {
        self.cols
    }

    /// The cell at `row`, `col`.
    pub closed spec fn at(self, row: int, col: int) -> usize {
        self.elems@[row * self.cols + col]
    }

    /// The storage holds exactly rows-times-cols cells.
    pub closed spec fn wf(self) -> bool {
        self.elems@.len() == self.rows * self.cols
    }

    /// Creates a `rows` by `cols` grid with every cell zero.
    pub fn new(rows: usize, cols: usize) -> (r: Grid)
        requires
            rows * cols <= usize::MAX,
        ensures
            r.wf(),
            r.rows_spec() == rows,
            r.cols_spec() == cols,
            forall|i: int, j: int| 0 <= i < rows && 0 <= j < cols ==> r.at(i, j) == 0,
    {
        proof {
            assert(rows * cols >= 0) by (nonlinear_arith);
        }
        let total: usize = rows * cols;
        let elems: Vec<usize> = vec![0; total];
        let r = Grid { rows, cols, elems };
        proof {
            assert forall|i: int, j: int| 0 <= i < rows && 0 <= j < cols implies r.at(i, j)
                == 0 by {
                lemma_row_major_bound(i, j, rows as int, cols as int);
            }
        }
        r
    }

    /// The size as (rows, cols).
    pub fn size(&self) -> (r: (usize, usize))
        ensures
            r.0 == self.rows_spec(),
            r.1 == self.cols_spec(),
    {
        (self.rows, self.cols)
    }

    /// The cell at `row`, `col`; nothing when the coordinates lie outside
    /// the grid.
    pub fn get(&self, row: usize, col: usize) -> (r: Option<usize>)
        requires
            self.wf(),
        ensures
            r is Some <==> row < self.rows_spec() && col < self.cols_spec(),
            r is Some ==> r == Some(self.at(row as int, col as int)),
    {
        if row < self.rows && col < self.cols {
            let total = self.elems.len();
            proof {
                lemma_row_major_bound(row as int, col as int, self.rows as int, self.cols as int);
                assert(row * self.cols + col < total);
            }
            Some(self.elems[row * self.cols + col])
        } else {
            None
        }
    }

    /// Sets the cell at `row`, `col` to `val`; rejected, with the grid
    /// unchanged, when the coordinates lie outside the grid.
    pub fn set(&mut self, row: usize, col: usize, val: usize) -> (r: Result<(), OutOfBounds>)
        requires
            old(self).wf(),
        ensures
            final(self).wf(),
            final(self).rows_spec() == old(self).rows_spec(),
            final(self).cols_spec() == old(self).cols_spec(),
            r is Ok <==> row < old(self).rows_spec() && col < old(self).cols_spec(),
            r is Err ==> *final(self) == *old(self),
            r is Ok ==> final(self).at(row as int, col as int) == val && (forall|i: int, j: int|
                0 <= i < old(self).rows_spec() && 0 <= j < old(self).cols_spec() && !(i == row && j
                    == col) ==> final(self).at(i, j) == old(self).at(i, j)),
    {
        if row < self.rows && col < self.cols {
            let total = self.elems.len();
            proof {
                lemma_row_major_bound(row as int, col as int, self.rows as int, self.cols as int);
                assert(row * self.cols + col < total);
            }
            let idx = row * self.cols + col;
            self.elems[idx] = val;
            proof {
                assert forall|i: int, j: int|
                    0 <= i < self.rows && 0 <= j < self.cols && !(i == row && j == col)
                        implies self.at(i, j) == old(self).at(i, j) by {
                    lemma_row_major_bound(i, j, self.rows as int, self.cols as int);
                    lemma_row_major_distinct(i, j, row as int, col as int, self.cols as int);
                }
            }
            Ok(())
        } else {
            Err(OutOfBounds)
        }
    }

    /// Renders the grid for a human, one row per line, cells separated by
    /// spaces.
    pub fn display(&self) -> (r: String)
        requires
            self.wf(),
    {
        let mut out = String::new();
        let mut row: usize = 0;
        while row < self.rows
            invariant
                self.wf(),
            decreases self.rows - row,
        {
            let mut col: usize = 0;
            while col < self.cols
                invariant
                    self.wf(),
                    row < self.rows,
                decreases self.cols - col,
            {
                let total = self.elems.len();
                proof {
                    lemma_row_major_bound(row as int, col as int, self.rows as int, self.cols as int);
                    assert(row * self.cols + col < total);
                }
                push_number(&mut out, self.elems[row * self.cols + col]);
                out.append(" ");
                col = col + 1;
            }
            out.append("\n");
            row = row + 1;
        }
        out
    }
}

/// Row-major indexing stays inside the storage.
proof fn lemma_row_major_bound(row: int, col: int, rows: int, cols: int)
    requires
        0 <= row < rows,
        0 <= col < cols,
    ensures
        0 <= row * cols + col < rows * cols,
{
    assert(0 <= row * cols + col < rows * cols) by (nonlinear_arith)
        requires
            0 <= row < rows,
            0 <= col < cols,
    ;
}

/// Distinct coordinates give distinct row-major indices.
proof fn lemma_row_major_distinct(i: int, j: int, row: int, col: int, cols: int)
    requires
        0 <= j < cols,
        0 <= col < cols,
        !(i == row && j == col),
    ensures
        i * cols + j != row * cols + col,
{
    assert(i * cols + j != row * cols + col) by (nonlinear_arith)
        requires
            0 <= j < cols,
            0 <= col < cols,
            !(i == row && j == col),
    ;
}

} // verus!

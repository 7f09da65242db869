//! The longest-common-subsequence table of two line sequences, and the
//! line-by-line diff read back out of it.

use vstd::prelude::*;

use crate::grid::Grid;

verus! {

/// The length of the longest common subsequence of the first `i` lines of
/// `a` and the first `j` lines of `b`.
pub open spec fn lcs_len(a: Seq<Seq<char>>, b: Seq<Seq<char>>, i: int, j: int) -> int
    decreases i + j,
{
    if i <= 0 || j <= 0 {
        0
    } else if a[i - 1] == b[j - 1] {
        lcs_len(a, b, i - 1, j - 1) + 1
    } else if lcs_len(a, b, i - 1, j) >= lcs_len(a, b, i, j - 1) {
        lcs_len(a, b, i - 1, j)
    } else {
        lcs_len(a, b, i, j - 1)
    }
}

/// The subsequence length never exceeds either prefix length.
proof fn lemma_lcs_bound(a: Seq<Seq<char>>, b: Seq<Seq<char>>, i: int, j: int)
    requires
        i >= 0,
        j >= 0,
    ensures
        0 <= lcs_len(a, b, i, j),
        lcs_len(a, b, i, j) <= i,
        lcs_len(a, b, i, j) <= j,
    decreases i + j,
{
    if i > 0 && j > 0 {
        lemma_lcs_bound(a, b, i - 1, j - 1);
        lemma_lcs_bound(a, b, i - 1, j);
        lemma_lcs_bound(a, b, i, j - 1);
    }
}

/// Fills the dynamic-programming table of the longest common subsequence
/// of two line sequences: cell (i, j) holds the subsequence length of the
/// first `i` lines of `seq1` and the first `j` lines of `seq2`.
pub fn lcs(seq1: &Vec<String>, seq2: &Vec<String>) -> (r: Grid)
    requires
        (seq1@.len() + 1) * (seq2@.len() + 1) <= usize::MAX,
    ensures
        r.wf(),
        r.rows_spec() == seq1@.len() + 1,
        r.cols_spec() == seq2@.len() + 1,
        forall|i: int, j: int|
            0 <= i <= seq1@.len() && 0 <= j <= seq2@.len() ==> r.at(i, j) == lcs_len(
                seq1.deep_view(),
                seq2.deep_view(),
                i,
                j,
            ),
{
    let ghost a = seq1.deep_view();
    let ghost b = seq2.deep_view();
    let len_seq1 = seq1.len();
    let len_seq2 = seq2.len();
    proof {
        assert((len_seq1 + 1) * (len_seq2 + 1) >= len_seq1 + 1 && (len_seq1 + 1) * (len_seq2 + 1)
            >= len_seq2 + 1) by (nonlinear_arith)
            requires
                len_seq1 >= 0,
                len_seq2 >= 0,
        ;
    }
    let rows = len_seq1 + 1;
    let cols = len_seq2 + 1;
    let mut grid = Grid::new(rows, cols);
    let mut i: usize = 0;
    while i < len_seq1
        invariant
            grid.wf(),
            grid.rows_spec() == rows,
            grid.cols_spec() == cols,
            rows == len_seq1 + 1,
            cols == len_seq2 + 1,
            len_seq1 == seq1@.len(),
            len_seq2 == seq2@.len(),
            a == seq1.deep_view(),
            b == seq2.deep_view(),
            i <= len_seq1,
            forall|p: int, q: int|
                0 <= p <= len_seq1 && 0 <= q <= len_seq2 && (p <= i || q == 0)
                    ==> grid.at(p, q) == lcs_len(a, b, p, q),
        decreases len_seq1 - i,
    {
        let mut j: usize = 0;
        while j < len_seq2
            invariant
                grid.wf(),
                grid.rows_spec() == rows,
                grid.cols_spec() == cols,
                rows == len_seq1 + 1,
                cols == len_seq2 + 1,
                len_seq1 == seq1@.len(),
                len_seq2 == seq2@.len(),
                a == seq1.deep_view(),
                b == seq2.deep_view(),
                i < len_seq1,
                j <= len_seq2,
                forall|p: int, q: int|
                    0 <= p <= len_seq1 && 0 <= q <= len_seq2 && (p <= i || (p == i + 1 && q <= j)
                        || q == 0) ==> grid.at(p, q) == lcs_len(a, b, p, q),
            decreases len_seq2 - j,
        {
            proof {
                lemma_lcs_bound(a, b, i as int, j as int);
                lemma_lcs_bound(a, b, i as int + 1, j as int);
                lemma_lcs_bound(a, b, i as int, j as int + 1);
            }
            let cell;
            if seq1[i] == seq2[j] {
                let prev = match grid.get(i, j) {
                    Some(v) => v,
                    None => 0,
                };
                cell = prev + 1;
            } else {
                let up = match grid.get(i + 1, j) {
                    Some(v) => v,
                    None => 0,
                };
                let left = match grid.get(i, j + 1) {
                    Some(v) => v,
                    None => 0,
                };
                cell = if up >= left {
                    up
                } else {
                    left
                };
            }
            let set_result = grid.set(i + 1, j + 1, cell);
            proof {
                assert(set_result is Ok);
            }
            j = j + 1;
        }
        i = i + 1;
    }
    grid
}

/// One line of a diff report.
#[derive(Debug)]
pub enum DiffLine {
    /// The line is common to both inputs.
    Same(String),
    /// The line appears only in the second input.
    Added(String),
    /// The line appears only in the first input.
    Removed(String),
    /// The blank separator emitted where the walk reaches the origin.
    Blank,
}

/// The diff read out of table `t`, walking back from position (i, j): a
/// common line where the two inputs agree, otherwise the added or removed
/// line of the larger neighbouring prefix, and the blank separator at the
/// origin.
pub open spec fn diff_spec(
    t: Grid,
    a: Seq<String>,
    b: Seq<String>,
    i: int,
    j: int,
) -> Seq<DiffLine>
    decreases i + j,
{
    if i < 0 || j < 0 {
        Seq::empty()
    } else if i > 0 && j > 0 && a[i - 1]@ == b[j - 1]@ {
        diff_spec(t, a, b, i - 1, j - 1).push(DiffLine::Same(a[i - 1]))
    } else if j > 0 && (i == 0 || t.at(i, j - 1) >= t.at(i - 1, j)) {
        diff_spec(t, a, b, i, j - 1).push(DiffLine::Added(b[j - 1]))
    } else if i > 0 && (j == 0 || t.at(i, j - 1) < t.at(i - 1, j)) {
        diff_spec(t, a, b, i - 1, j).push(DiffLine::Removed(a[i - 1]))
    } else {
        seq![DiffLine::Blank]
    }
}

/// Reads the diff of the first `i` lines of `lines1` and the first `j`
/// lines of `lines2` back out of a filled subsequence table, in input
/// order: common lines where the table says the subsequence extends,
/// otherwise the added or removed line of the larger neighbouring prefix.
pub fn diff_lines(
    lcs_table: &Grid,
    lines1: &Vec<String>,
    lines2: &Vec<String>,
    i: usize,
    j: usize,
) -> (r: Vec<DiffLine>)
    requires
        lcs_table.wf(),
        lcs_table.rows_spec() == lines1@.len() + 1,
        lcs_table.cols_spec() == lines2@.len() + 1,
        i <= lines1@.len(),
        j <= lines2@.len(),
    ensures
        r@ == diff_spec(*lcs_table, lines1@, lines2@, i as int, j as int),
    decreases i + j,
{
    if i > 0 && j > 0 && lines1[i - 1] == lines2[j - 1] {
        let mut r = diff_lines(lcs_table, lines1, lines2, i - 1, j - 1);
        r.push(DiffLine::Same(lines1[i - 1].clone()));
        r
    } else if j > 0 && (i == 0 || cell_at(lcs_table, i, j - 1) >= cell_at(lcs_table, i - 1, j)) {
        let mut r = diff_lines(lcs_table, lines1, lines2, i, j - 1);
        r.push(DiffLine::Added(lines2[j - 1].clone()));
        r
    } else if i > 0 && (j == 0 || cell_at(lcs_table, i, j - 1) < cell_at(lcs_table, i - 1, j)) {
        let mut r = diff_lines(lcs_table, lines1, lines2, i - 1, j);
        r.push(DiffLine::Removed(lines1[i - 1].clone()));
        r
    } else {
        let mut r: Vec<DiffLine> = Vec::new();
        r.push(DiffLine::Blank);
        r
    }
}

/// The table cell at (row, col), which the diff walk only asks for in
/// bounds.
fn cell_at(lcs_table: &Grid, row: usize, col: usize) -> (r: usize)
    requires
        lcs_table.wf(),
        row < lcs_table.rows_spec(),
        col < lcs_table.cols_spec(),
    ensures
        r == lcs_table.at(row as int, col as int),
{
    match lcs_table.get(row, col) {
        Some(v) => v,
        None => 0,
    }
}

} // verus!

//! Grouping the cells of a matrix by anti-diagonal, the structural half of
//! diagonal averaging (Hankelisation).
use vstd::prelude::*;
use crate::trajectory::{hankel_spec, is_rectangular, matrix_view, min_int, rows_spec};

verus! {

/// First row whose cell lies on anti-diagonal `idx` of a matrix with `cols`
/// columns.
pub open spec fn diag_first_row(cols: int, idx: int) -> int {
    if idx - cols + 1 > 0 {
        idx - cols + 1
    } else {
        0
    }
}

/// One past the last row whose cell lies on anti-diagonal `idx` of a matrix
/// with `rows` rows.
pub open spec fn diag_end_row(rows: int, idx: int) -> int {
    min_int(rows, idx + 1)
}

/// Number of cells `(i, j)` with `i + j == idx` in a `rows` by `cols` matrix.
pub open spec fn diag_len(rows: int, cols: int, idx: int) -> nat {
    let lo = diag_first_row(cols, idx);
    let end = diag_end_row(rows, idx);
    if end > lo {
        (end - lo) as nat
    } else {
        0
    }
}

/// The cells of `m` on anti-diagonal `idx` (those `(i, j)` with `i + j == idx`),
/// in increasing row order.
pub open spec fn anti_diagonal<T>(m: Seq<Seq<T>>, cols: int, idx: int) -> Seq<T> {
    let lo = diag_first_row(cols, idx);
    Seq::new(diag_len(m.len() as int, cols, idx), |t: int| m[lo + t][idx - lo - t])
}

/// Groups the cells of the `rows` by `cols` matrix `m` by anti-diagonal:
/// entry `idx` of the result lists, in increasing row order, the cells
/// `m[i][j]` with `i + j == idx`, for each `idx < n`. Every cell of `m` lies on
/// one of these `n` anti-diagonals.
pub fn anti_diagonals<T: Copy>(m: &Vec<Vec<T>>, cols: usize, n: usize) -> (d: Vec<Vec<T>>)
    requires
        is_rectangular(matrix_view(m@), cols as int),
        m@.len() == 0 || cols == 0 || m@.len() + cols <= n + 1,
    ensures
        d@.len() == n,
        forall|idx: int|
            0 <= idx < n ==> (#[trigger] d@[idx])@ == anti_diagonal(matrix_view(m@), cols as int, idx),
        // anti-diagonal `idx` has min(idx + 1, rows, cols, rows + cols - 1 - idx) cells
        forall|idx: int|
            0 <= idx < n && idx < m@.len() + cols - 1 && m@.len() > 0 && cols > 0 ==> {
                let len = (#[trigger] d@[idx])@.len() as int;
                let rows = m@.len() as int;
                &&& len <= idx + 1 && len <= rows && len <= cols && len <= rows + cols - 1 - idx
                &&& (len == idx + 1 || len == rows || len == cols || len == rows + cols - 1 - idx)
            },
        forall|idx: int|
            0 <= idx < n && (idx >= m@.len() + cols - 1 || m@.len() == 0 || cols == 0) ==> (
            #[trigger] d@[idx])@.len() == 0,
        // every cell lies on anti-diagonal i + j
        forall|i: int, j: int|
            0 <= i < m@.len() && 0 <= j < cols ==> i + j < n && 0 <= i - diag_first_row(cols as int, i + j)
                < d@[i + j]@.len() && d@[i + j]@[i - diag_first_row(cols as int, i + j)] == (
            #[trigger] m@[i]@[j]),
{
    let rows = m.len();
    let ghost mv = matrix_view(m@);
    let mut d: Vec<Vec<T>> = Vec::new();
    for idx in 0..n
        invariant
            rows == m@.len(),
            mv == matrix_view(m@),
            is_rectangular(mv, cols as int),
            d@.len() == idx,
            forall|q: int| 0 <= q < idx ==> (#[trigger] d@[q])@ == anti_diagonal(mv, cols as int, q),
    {
        let lo: usize = if idx + 1 > cols { idx + 1 - cols } else { 0 };
        let end: usize = if idx + 1 < rows { idx + 1 } else { rows };
        let mut diag: Vec<T> = Vec::new();
        let mut i: usize = lo;
        while i < end
            invariant
                rows == m@.len(),
                mv == matrix_view(m@),
                is_rectangular(mv, cols as int),
                lo == diag_first_row(cols as int, idx as int),
                end == diag_end_row(rows as int, idx as int),
                lo <= i,
                i <= end || i == lo,
                diag@.len() == i - lo,
                forall|t: int| 0 <= t < i - lo ==> diag@[t] == mv[lo + t][idx - lo - t],
            decreases end - i,
        {
            assert(mv[i as int] == m@[i as int]@);
            assert(mv[i as int].len() == cols);
            let x = m[i][idx - i];
            diag.push(x);
            i = i + 1;
        }
        assert(diag@ =~= anti_diagonal(mv, cols as int, idx as int));
        d.push(diag);
    }
    proof {
        assert forall|idx: int|
            0 <= idx < n && idx < m@.len() + cols - 1 && m@.len() > 0 && cols > 0 implies {
                let len = (#[trigger] d@[idx])@.len() as int;
                let rows = m@.len() as int;
                &&& len <= idx + 1 && len <= rows && len <= cols && len <= rows + cols - 1 - idx
                &&& (len == idx + 1 || len == rows || len == cols || len == rows + cols - 1 - idx)
            } by {
            lemma_diag_len_closed_form(m@.len() as int, cols as int, idx);
        }
        assert forall|i: int, j: int| 0 <= i < m@.len() && 0 <= j < cols implies i + j < n && 0 <= i
            - diag_first_row(cols as int, i + j) < d@[i + j]@.len() && d@[i + j]@[i - diag_first_row(
            cols as int,
            i + j,
        )] == (#[trigger] m@[i]@[j]) by {
            lemma_cell_on_anti_diagonal(mv, cols as int, i, j);
            assert(mv[i] == m@[i]@);
        }
    }
    d
}

/// Closed form of the length of an anti-diagonal: `min(idx + 1, rows, cols,
/// rows + cols - 1 - idx)`, and it is at least one on every anti-diagonal of
/// a non-empty matrix.
pub proof fn lemma_diag_len_closed_form(rows: int, cols: int, idx: int)
    requires
        1 <= rows,
        1 <= cols,
        0 <= idx < rows + cols - 1,
    ensures
        diag_len(rows, cols, idx) == min_int(min_int(idx + 1, rows), min_int(cols, rows + cols - 1 - idx)),
        diag_len(rows, cols, idx) >= 1,
{
}

/// Every cell `(i, j)` of a rectangular matrix appears on anti-diagonal
/// `i + j`, at position `i - diag_first_row(cols, i + j)`.
pub proof fn lemma_cell_on_anti_diagonal<T>(m: Seq<Seq<T>>, cols: int, i: int, j: int)
    requires
        is_rectangular(m, cols),
        0 <= i < m.len(),
        0 <= j < cols,
    ensures
        0 <= i - diag_first_row(cols, i + j) < anti_diagonal(m, cols, i + j).len(),
        anti_diagonal(m, cols, i + j)[i - diag_first_row(cols, i + j)] == m[i][j],
{
}

/// Sum of the lengths of anti-diagonals `0 .. upto` of a `rows` by `cols`
/// matrix.
pub open spec fn diag_len_sum(rows: int, cols: int, upto: int) -> int
    decreases upto,
{
    if upto <= 0 {
        0
    } else {
        diag_len_sum(rows, cols, upto - 1) + diag_len(rows, cols, upto - 1)
    }
}

/// Whether row `r` has a cell on anti-diagonal `idx` of a matrix with `cols`
/// columns.
pub open spec fn row_meets_diag(r: int, cols: int, idx: int) -> int {
    if r <= idx < r + cols {
        1
    } else {
        0
    }
}

/// Number of anti-diagonals among `0 .. upto` on which row `r` has a cell.
pub open spec fn row_meets_sum(r: int, cols: int, upto: int) -> int
    decreases upto,
{
    if upto <= 0 {
        0
    } else {
        row_meets_sum(r, cols, upto - 1) + row_meets_diag(r, cols, upto - 1)
    }
}

proof fn lemma_row_meets_sum(r: int, cols: int, upto: int)
    requires
        0 <= r,
        0 <= cols,
        0 <= upto,
    ensures
        row_meets_sum(r, cols, upto) == min_int(if upto - r > 0 { upto - r } else { 0 }, cols),
    decreases upto,
{
    if upto > 0 {
        lemma_row_meets_sum(r, cols, upto - 1);
    }
}

proof fn lemma_diag_len_sum_peel_row(rows: int, cols: int, upto: int)
    requires
        1 <= rows,
        0 <= cols,
        0 <= upto,
    ensures
        diag_len_sum(rows, cols, upto) == diag_len_sum(rows - 1, cols, upto) + row_meets_sum(rows - 1, cols, upto),
    decreases upto,
{
    if upto > 0 {
        lemma_diag_len_sum_peel_row(rows, cols, upto - 1);
        let idx = upto - 1;
        assert(diag_len(rows, cols, idx) == diag_len(rows - 1, cols, idx) + row_meets_diag(rows - 1, cols, idx));
    }
}

/// Every cell lies on exactly one anti-diagonal: over the `rows + cols - 1`
/// anti-diagonals of a `rows` by `cols` matrix (or any longer range of them),
/// the lengths add up to `rows * cols`.
pub proof fn lemma_anti_diagonals_count_every_cell_once(rows: int, cols: int, upto: int)
    requires
        0 <= rows,
        0 <= cols,
        upto >= rows + cols - 1,
        upto >= 0,
    ensures
        diag_len_sum(rows, cols, upto) == rows * cols,
    decreases rows,
{
    if rows == 0 {
        lemma_diag_len_sum_zero_rows(cols, upto);
    } else {
        lemma_anti_diagonals_count_every_cell_once(rows - 1, cols, upto);
        lemma_diag_len_sum_peel_row(rows, cols, upto);
        lemma_row_meets_sum(rows - 1, cols, upto);
        assert(rows * cols == (rows - 1) * cols + cols) by (nonlinear_arith);
    }
}

proof fn lemma_diag_len_sum_zero_rows(cols: int, upto: int)
    requires
        0 <= upto,
    ensures
        diag_len_sum(0, cols, upto) == 0,
    decreases upto,
{
    if upto > 0 {
        lemma_diag_len_sum_zero_rows(cols, upto - 1);
    }
}

/// Diagonal averaging undoes the trajectory embedding: for a window of
/// `1 ..= n` samples, anti-diagonal `idx < n` of the trajectory matrix of `s`
/// is a non-empty run of copies of `s[idx]`, so its average is `s[idx]`.
pub proof fn lemma_anti_diagonals_of_embedding<T>(s: Seq<T>, w: int, idx: int)
    requires
        1 <= w <= s.len(),
        0 <= idx < s.len(),
    ensures
        anti_diagonal(hankel_spec(s, w), w, idx).len() >= 1,
        anti_diagonal(hankel_spec(s, w), w, idx) =~= Seq::new(
            anti_diagonal(hankel_spec(s, w), w, idx).len(),
            |t: int| s[idx],
        ),
{
    let h = hankel_spec(s, w);
    let rows = rows_spec(s.len() as int, w);
    lemma_diag_len_closed_form(rows, w, idx);
    let d = anti_diagonal(h, w, idx);
    let lo = diag_first_row(w, idx);
    assert forall|t: int| 0 <= t < d.len() implies d[t] == s[idx] by {
        assert(h[lo + t] == s.subrange(lo + t, lo + t + w));
    }
}

} // verus!

//! The trajectory (Hankel) embedding of a series and the integer plan of a
//! decomposition: how many rows the embedding has and which singular
//! components become trend and which become seasonality.
use vstd::prelude::*;

verus! {

/// Number of sliding windows of length `window` that fit in `n` samples.
pub open spec fn rows_spec(n: int, window: int) -> int {
    n - window + 1
}

/// The trajectory matrix of `s` for window `w`: row `i` is the window
/// `s[i .. i + w]`.
pub open spec fn hankel_spec<T>(s: Seq<T>, w: int) -> Seq<Seq<T>> {
    Seq::new(rows_spec(s.len() as int, w) as nat, |i: int| s.subrange(i, i + w))
}

/// The mathematical view of a matrix stored as a vector of rows.
pub open spec fn matrix_view<T>(m: Seq<Vec<T>>) -> Seq<Seq<T>> {
    m.map_values(|r: Vec<T>| r@)
}

/// Every row of `m` has `cols` entries.
pub open spec fn is_rectangular<T>(m: Seq<Seq<T>>, cols: int) -> bool {
    forall|i: int| 0 <= i < m.len() ==> (#[trigger] m[i]).len() == cols
}

/// The smaller of two integers.
pub open spec fn min_int(a: int, b: int) -> int {
    if a <= b {
        a
    } else {
        b
    }
}

/// Number of rows of the trajectory matrix built from `n` samples with a
/// sliding window of `window` samples.
pub fn trajectory_rows(n: usize, window: usize) -> (k: usize)
    requires
        window <= n,
        rows_spec(n as int, window as int) <= usize::MAX,
    ensures
        k == rows_spec(n as int, window as int),
        k + window == n + 1,
{
    n - window + 1
}

/// Builds the trajectory (Hankel) matrix of `series`: one row for each of the
/// `n - window + 1` sliding windows, row `i` holding `series[i .. i + window]`.
pub fn hankel_embed<T: Copy>(series: &Vec<T>, window: usize) -> (h: Vec<Vec<T>>)
    requires
        window <= series.len(),
        rows_spec(series.len() as int, window as int) <= usize::MAX,
    ensures
        matrix_view(h@) == hankel_spec(series@, window as int),
        h@.len() == rows_spec(series.len() as int, window as int),
        forall|i: int, j: int|
            0 <= i < h@.len() && 0 <= j < window ==> (#[trigger] h@[i]@[j]) == series@[i + j],
        is_rectangular(matrix_view(h@), window as int),
{
    let n = series.len();
    let k = trajectory_rows(n, window);
    let mut h: Vec<Vec<T>> = Vec::new();
    for i in 0..k
        invariant
            n == series.len(),
            k == n - window + 1,
            window <= n,
            h@.len() == i,
            forall|r: int| 0 <= r < i ==> (#[trigger] h@[r])@ == series@.subrange(r, r + window),
    {
        let mut row: Vec<T> = Vec::new();
        for j in 0..window
            invariant
                n == series.len(),
                k == n - window + 1,
                i < k,
                row@ == series@.subrange(i as int, i + j),
        {
            row.push(series[i + j]);
            assert(row@ =~= series@.subrange(i as int, i + j + 1));
        }
        h.push(row);
    }
    assert(matrix_view(h@) =~= hankel_spec(series@, window as int));
    h
}

/// Hankel property: the trajectory matrix is constant along every
/// anti-diagonal, and the value on anti-diagonal `i + j` is `series[i + j]`.
pub proof fn lemma_hankel_constant_on_anti_diagonals<T>(s: Seq<T>, w: int, i1: int, j1: int, i2: int, j2: int)
    requires
        0 <= w <= s.len(),
        0 <= i1 < rows_spec(s.len() as int, w),
        0 <= i2 < rows_spec(s.len() as int, w),
        0 <= j1 < w,
        0 <= j2 < w,
        i1 + j1 == i2 + j2,
    ensures
        hankel_spec(s, w)[i1][j1] == hankel_spec(s, w)[i2][j2],
        hankel_spec(s, w)[i1][j1] == s[i1 + j1],
{
}

/// The integer decisions of a decomposition: the shape of the trajectory
/// matrix, how many singular components are computed, and which of them are
/// reconstructed as trend (`0 .. trend_end`) and which as seasonality
/// (`trend_end .. seasonal_end`).
pub struct DecompositionPlan {
    pub n: usize,
    pub window: usize,
    pub rows: usize,
    pub total_rank: usize,
    pub trend_end: usize,
    pub seasonal_end: usize,
}

/// The plan that `decompose` follows for `n` samples, a window of `window`
/// samples, `trend_rank` trend components and `seasonal_rank` seasonal ones.
pub open spec fn plan_spec(n: int, window: int, trend_rank: int, seasonal_rank: int) -> (int, int, int, int) {
    let rows = rows_spec(n, window);
    let total = min_int(min_int(trend_rank + seasonal_rank, window), rows);
    (rows, total, min_int(trend_rank, total), min_int(trend_rank + seasonal_rank, total))
}

impl DecompositionPlan {
    /// The plan seen as the tuple `(rows, total_rank, trend_end, seasonal_end)`.
    pub open spec fn shape(self) -> (int, int, int, int) {
        (self.rows as int, self.total_rank as int, self.trend_end as int, self.seasonal_end as int)
    }
}

/// Plans a decomposition of `n` samples: the trajectory matrix has
/// `n - window + 1` rows, `min(trend_rank + seasonal_rank, window, rows)`
/// singular components are computed, the first `min(trend_rank, total)` of
/// them form the trend and the following ones, up to
/// `min(trend_rank + seasonal_rank, total)`, the seasonality.
pub fn plan_decomposition(n: usize, window: usize, trend_rank: usize, seasonal_rank: usize) -> (p: DecompositionPlan)
    requires
        window <= n,
        rows_spec(n as int, window as int) <= usize::MAX,
        trend_rank + seasonal_rank <= usize::MAX,
    ensures
        p.n == n,
        p.window == window,
        p.shape() == plan_spec(n as int, window as int, trend_rank as int, seasonal_rank as int),
        p.rows + window == n + 1,
        // as many components as are asked for and fit both sides of the matrix
        p.total_rank <= trend_rank + seasonal_rank,
        p.total_rank <= window,
        p.total_rank <= p.rows,
        p.total_rank == trend_rank + seasonal_rank || p.total_rank == window || p.total_rank == p.rows,
        // the first components, as many as asked for, form the trend
        p.trend_end <= trend_rank,
        p.trend_end <= p.total_rank,
        p.trend_end == trend_rank || p.trend_end == p.total_rank,
        // every other computed component forms the seasonality
        p.seasonal_end == p.total_rank,
        p.seasonal_end - p.trend_end <= seasonal_rank,
{
    let rows = trajectory_rows(n, window);
    let wanted = trend_rank + seasonal_rank;
    let mut total_rank = if wanted < window { wanted } else { window };
    if rows < total_rank {
        total_rank = rows;
    }
    let trend_end = if trend_rank < total_rank { trend_rank } else { total_rank };
    let seasonal_end = if wanted < total_rank { wanted } else { total_rank };
    DecompositionPlan { n, window, rows, total_rank, trend_end, seasonal_end }
}

/// Number of singular values that the energy spectrum of `n` samples with a
/// window of `window` samples reports: `min(window, n - window + 1)`.
pub fn spectrum_rank(n: usize, window: usize) -> (r: usize)
    requires
        window <= n,
        rows_spec(n as int, window as int) <= usize::MAX,
    ensures
        r == min_int(window as int, rows_spec(n as int, window as int)),
        r <= window,
        r + window <= n + 1,
        r == window || r + window == n + 1,
{
    let rows = trajectory_rows(n, window);
    if window < rows {
        window
    } else {
        rows
    }
}

/// The components of a plan are ordered and exhaust what is computed: trend
/// components come first, seasonal ones follow up to exactly the number of
/// computed components, which never exceeds what the spectrum reports.
pub proof fn lemma_plan_partitions_components(n: int, window: int, trend_rank: int, seasonal_rank: int)
    requires
        0 <= window <= n,
        0 <= trend_rank,
        0 <= seasonal_rank,
    ensures
        ({
            let (rows, total, trend_end, seasonal_end) = plan_spec(n, window, trend_rank, seasonal_rank);
            &&& 0 <= trend_end <= seasonal_end
            &&& seasonal_end == total
            &&& total <= min_int(window, rows)
            &&& trend_end == min_int(trend_rank, total)
            &&& seasonal_end - trend_end <= seasonal_rank
        }),
{
}

/// A plan computes every requested component that fits: the number of
/// computed components is the largest count that is at most the number
/// requested, the window and the number of rows; the trend takes the first
/// `trend_rank` of them (or all, if fewer), the seasonality the next
/// `seasonal_rank` (or all the rest, if fewer), and no computed component is
/// left to neither.
pub proof fn lemma_plan_computes_every_fitting_component(
    n: int,
    window: int,
    trend_rank: int,
    seasonal_rank: int,
    c: int,
)
    requires
        0 <= window <= n,
        0 <= trend_rank,
        0 <= seasonal_rank,
    ensures
        ({
            let (rows, total, trend_end, seasonal_end) = plan_spec(n, window, trend_rank, seasonal_rank);
            &&& rows + window == n + 1
            &&& total <= trend_rank + seasonal_rank && total <= window && total <= rows
            &&& (c <= trend_rank + seasonal_rank && c <= window && c <= rows ==> c <= total)
            &&& (trend_rank <= total ==> trend_end == trend_rank)
            &&& (total < trend_rank ==> trend_end == total)
            &&& seasonal_end == total
            &&& (trend_rank + seasonal_rank <= total ==> seasonal_end - trend_end == seasonal_rank)
            &&& (total < trend_rank + seasonal_rank ==> seasonal_end == total)
        }),
{
}

} // verus!

//! Index structure of the classical decomposition: the centred window of a
//! moving average and the grouping of samples by position within a period.
use vstd::prelude::*;
use vstd::arithmetic::div_mod::lemma_fundamental_div_mod_converse;

verus! {

/// Whether a full centred window of `2 * h + 1` samples fits in `n` samples.
pub open spec fn full_window_fits(n: int, h: int) -> bool {
    2 * h + 1 <= n
}

/// The position nearest to `i` around which the full centred window of half
/// width `h` fits in `n` samples.
pub open spec fn nearest_full_centre(i: int, n: int, h: int) -> int {
    if i < h {
        h
    } else if i > n - 1 - h {
        n - 1 - h
    } else {
        i
    }
}

/// First sample of the window that the moving average of half width `h`
/// averages at position `i` of `n` samples: the full centred window around the
/// nearest position where it fits, or, when no full window fits, the window
/// `i - h ..= i + h` clipped to the series.
pub open spec fn window_start(i: int, n: int, h: int) -> int {
    if full_window_fits(n, h) {
        nearest_full_centre(i, n, h) - h
    } else if i >= h {
        i - h
    } else {
        0
    }
}

/// One past the last sample of the window that the moving average of half
/// width `h` averages at position `i` of `n` samples (see `window_start`).
pub open spec fn window_end(i: int, n: int, h: int) -> int {
    if full_window_fits(n, h) {
        nearest_full_centre(i, n, h) + h + 1
    } else if i + h < n {
        i + h + 1
    } else {
        n
    }
}

/// The samples `start .. end` that the moving average of half width
/// `half_window` averages at position `i` of a series of `n` samples. Every
/// average is over a symmetric window of `2 * half_window + 1` samples; a
/// position too close to either end takes the window of the nearest position
/// where that window fits. When the series is shorter than one full window,
/// the window `i - half_window ..= i + half_window` is clipped to the series.
pub fn moving_window(i: usize, n: usize, half_window: usize) -> (r: (usize, usize))
    requires
        i < n,
        i + half_window <= usize::MAX,
        2 * half_window + 1 <= usize::MAX,
    ensures
        r.0 == window_start(i as int, n as int, half_window as int),
        r.1 == window_end(i as int, n as int, half_window as int),
        r.0 <= i < r.1 <= n,
        2 * half_window + 1 <= n ==> r.1 - r.0 == 2 * half_window + 1,
        half_window <= i && i + half_window < n ==> r.0 == i - half_window && r.1 == i + half_window + 1,
        2 * half_window + 1 <= n && i < half_window ==> r.0 == 0,
        2 * half_window + 1 <= n && i + half_window >= n ==> r.1 == n,
        n < 2 * half_window + 1 ==> r.0 >= i - half_window && (r.0 == 0 || r.0 == i - half_window),
        n < 2 * half_window + 1 ==> r.1 <= i + half_window + 1 && (r.1 == n || r.1 == i + half_window + 1),
{
    let full = 2 * half_window + 1;
    if full <= n {
        let last_centre = n - 1 - half_window;
        let centre = if i < half_window {
            half_window
        } else if i > last_centre {
            last_centre
        } else {
            i
        };
        (centre - half_window, centre + half_window + 1)
    } else {
        let start = if i >= half_window { i - half_window } else { 0 };
        let end = if i + half_window < n { i + half_window + 1 } else { n };
        (start, end)
    }
}

/// The windows of the moving average of half width `half_window` over `n`
/// samples, one for each position (see `moving_window`).
pub fn moving_windows(n: usize, half_window: usize) -> (w: Vec<(usize, usize)>)
    requires
        2 * half_window + 1 <= usize::MAX,
        n == 0 || n - 1 + half_window <= usize::MAX,
    ensures
        w@.len() == n,
        forall|i: int|
            0 <= i < n ==> (#[trigger] w@[i]).0 == window_start(i, n as int, half_window as int)
                && w@[i].1 == window_end(i, n as int, half_window as int),
        forall|i: int|
            0 <= i < n ==> {
                let (start, end) = #[trigger] w@[i];
                &&& start <= i < end <= n
                &&& 2 * half_window + 1 <= n ==> end - start == 2 * half_window + 1
                &&& half_window <= i && i + half_window < n ==> start == i - half_window && end == i
                    + half_window + 1
                &&& 2 * half_window + 1 <= n && i < half_window ==> start == 0
                &&& 2 * half_window + 1 <= n && i + half_window >= n ==> end == n
                &&& n < 2 * half_window + 1 ==> start >= i - half_window && (start == 0 || start == i
                    - half_window)
                &&& n < 2 * half_window + 1 ==> end <= i + half_window + 1 && (end == n || end == i
                    + half_window + 1)
            },
{
    let mut w: Vec<(usize, usize)> = Vec::new();
    for i in 0..n
        invariant
            2 * half_window + 1 <= usize::MAX,
            n == 0 || n - 1 + half_window <= usize::MAX,
            w@.len() == i,
            forall|q: int|
                0 <= q < i ==> (#[trigger] w@[q]).0 == window_start(q, n as int, half_window as int)
                    && w@[q].1 == window_end(q, n as int, half_window as int),
    {
        w.push(moving_window(i, n, half_window));
    }
    w
}

/// The window at `i` lies in the series and contains `i`. Where a full window
/// fits, every window holds exactly `2 * h + 1` samples, and away from the ends
/// it is centred on `i`; otherwise the window is the centred one clipped to
/// the series, and holds fewer than `2 * h + 1` samples.
pub proof fn lemma_window_shape(i: int, n: int, h: int)
    requires
        0 <= i < n,
        0 <= h,
    ensures
        0 <= window_start(i, n, h) <= i < window_end(i, n, h) <= n,
        full_window_fits(n, h) ==> window_end(i, n, h) - window_start(i, n, h) == 2 * h + 1,
        !full_window_fits(n, h) ==> window_end(i, n, h) - window_start(i, n, h) < 2 * h + 1,
        h <= i && i + h < n ==> window_start(i, n, h) == i - h && window_end(i, n, h) == i + h + 1,
{
}

/// Boundary values are those of the nearest full-window average: where a full
/// window fits, positions before `h` share the window of position `h`, and
/// positions after `n - 1 - h` share the window of position `n - 1 - h`.
pub proof fn lemma_boundary_windows_are_nearest_full(i: int, n: int, h: int)
    requires
        0 <= i < n,
        0 <= h,
        full_window_fits(n, h),
    ensures
        i < h ==> window_start(i, n, h) == window_start(h, n, h) && window_end(i, n, h) == window_end(h, n, h),
        i > n - 1 - h ==> window_start(i, n, h) == window_start(n - 1 - h, n, h) && window_end(i, n, h)
            == window_end(n - 1 - h, n, h),
{
}

/// Windows slide forward: both ends of the window never move back as the
/// position advances.
pub proof fn lemma_windows_slide_forward(i1: int, i2: int, n: int, h: int)
    requires
        0 <= i1 <= i2 < n,
        0 <= h,
    ensures
        window_start(i1, n, h) <= window_start(i2, n, h),
        window_end(i1, n, h) <= window_end(i2, n, h),
{
}

/// Number of samples among `0 .. n` at position `pos` within a period of
/// `period` samples, i.e. of the form `pos + m * period`.
pub open spec fn group_len(n: int, period: int, pos: int) -> nat
    recommends
        period > 0,
{
    if pos < n {
        ((n - pos - 1) / period + 1) as nat
    } else {
        0
    }
}

/// The samples `pos, pos + period, pos + 2 * period, ...` below `n`.
pub open spec fn group_spec(n: int, period: int, pos: int) -> Seq<usize> {
    Seq::new(group_len(n, period, pos), |m: int| (pos + m * period) as usize)
}

proof fn lemma_group_len_bounds(n: int, period: int, pos: int, len: int)
    requires
        period > 0,
        0 <= pos,
        len >= 0,
        len == 0 ==> pos >= n,
        len > 0 ==> pos + (len - 1) * period < n,
        pos + len * period >= n,
    ensures
        len == group_len(n, period, pos),
{
    if pos < n {
        let q = len - 1;
        let r = n - pos - 1 - q * period;
        assert(q * period <= n - pos - 1);
        assert(n - pos - 1 < q * period + period) by (nonlinear_arith)
            requires
                pos + (q + 1) * period >= n,
        ;
        lemma_fundamental_div_mod_converse(n - pos - 1, period, q, r);
    }
}

/// The samples among `0 .. n` at position `pos` within a period of `period`
/// samples: `pos, pos + period, pos + 2 * period, ...`, in increasing order.
pub fn period_positions(n: usize, period: usize, pos: usize) -> (g: Vec<usize>)
    requires
        period > 0,
    ensures
        g@ == group_spec(n as int, period as int, pos as int),
        forall|m: int| 0 <= m < g@.len() ==> (#[trigger] g@[m]) == pos + m * period && g@[m] < n,
        pos + g@.len() * period >= n,
{
    let mut g: Vec<usize> = Vec::new();
    if pos < n {
        let mut i: usize = pos;
        loop
            invariant_except_break
                i == pos + g@.len() * period,
            invariant
                period > 0,
                pos <= i < n,
                forall|m: int| 0 <= m < g@.len() ==> (#[trigger] g@[m]) == pos + m * period && g@[m] < n,
            ensures
                forall|m: int| 0 <= m < g@.len() ==> (#[trigger] g@[m]) == pos + m * period && g@[m] < n,
                g@.len() > 0,
                pos + g@.len() * period >= n,
            decreases n - i,
        {
            let ghost len0 = g@.len() as int;
            g.push(i);
            assert(g@[len0] == pos + len0 * period);
            assert(i + period == pos + g@.len() * period) by (nonlinear_arith)
                requires
                    i == pos + len0 * period,
                    g@.len() == len0 + 1,
            ;
            if n - i <= period {
                break;
            }
            i = i + period;
        }
        assert(g@[g@.len() - 1] < n);
    }
    proof {
        lemma_group_len_bounds(n as int, period as int, pos as int, g@.len() as int);
        assert(g@ =~= group_spec(n as int, period as int, pos as int));
    }
    g
}

/// The samples of a series of `n` samples grouped by position within a period
/// of `period` samples: group `pos` holds `pos, pos + period, ...` below `n`.
pub fn period_groups(n: usize, period: usize) -> (groups: Vec<Vec<usize>>)
    ensures
        groups@.len() == period,
        forall|pos: int|
            0 <= pos < period ==> (#[trigger] groups@[pos])@ == group_spec(n as int, period as int, pos),
        forall|pos: int, m: int|
            0 <= pos < period && 0 <= m < groups@[pos]@.len() ==> (#[trigger] groups@[pos]@[m]) == pos + m
                * period && groups@[pos]@[m] < n,
        forall|pos: int| 0 <= pos < period ==> pos + (#[trigger] groups@[pos])@.len() * period >= n,
{
    let mut groups: Vec<Vec<usize>> = Vec::new();
    for pos in 0..period
        invariant
            groups@.len() == pos,
            forall|q: int|
                0 <= q < pos ==> (#[trigger] groups@[q])@ == group_spec(n as int, period as int, q),
            forall|q: int, m: int|
                0 <= q < pos && 0 <= m < groups@[q]@.len() ==> (#[trigger] groups@[q]@[m]) == q + m
                    * period && groups@[q]@[m] < n,
            forall|q: int| 0 <= q < pos ==> q + (#[trigger] groups@[q])@.len() * period >= n,
    {
        groups.push(period_positions(n, period, pos));
    }
    groups
}

/// The groups partition the samples: sample `i < n` is member `i / period` of
/// group `i % period`, and every member of group `pos` lies at position `pos`
/// within the period.
pub proof fn lemma_groups_partition(n: int, period: int, i: int, pos: int, m: int)
    requires
        period > 0,
        0 <= i < n <= usize::MAX,
        0 <= pos < period,
        0 <= m < group_len(n, period, pos),
    ensures
        i / period < group_len(n, period, i % period),
        group_spec(n, period, i % period)[i / period] == i,
        (pos + m * period) % period == pos,
        (pos + m * period) / period == m,
        pos + m * period < n,
{
    vstd::arithmetic::div_mod::lemma_fundamental_div_mod(i, period);
    let q = i / period;
    let r = i % period;
    assert(q * period == period * q) by (nonlinear_arith);
    assert(0 <= r < period) by {
        vstd::arithmetic::div_mod::lemma_mod_bound(i, period);
    }
    assert(q >= 0) by {
        vstd::arithmetic::div_mod::lemma_div_pos_is_pos(i, period);
    }
    assert(q * period <= n - r - 1);
    assert((n - r - 1) / period >= q) by {
        vstd::arithmetic::div_mod::lemma_div_is_ordered(q * period, n - r - 1, period);
        vstd::arithmetic::div_mod::lemma_div_multiples_vanish(q, period);
    }
    lemma_fundamental_div_mod_converse(pos + m * period, period, m, pos);
    assert(m <= (n - pos - 1) / period);
    assert(m * period <= n - pos - 1) by {
        vstd::arithmetic::div_mod::lemma_fundamental_div_mod(n - pos - 1, period);
        vstd::arithmetic::mul::lemma_mul_inequality(m, (n - pos - 1) / period, period);
        vstd::arithmetic::div_mod::lemma_mod_bound(n - pos - 1, period);
        assert((n - pos - 1) / period * period == period * ((n - pos - 1) / period)) by (nonlinear_arith);
    }
}

/// One value per position within a period spread over `n` samples: sample
/// `i` gets `per_position[i % per_position.len()]`; with no positions at all,
/// every sample keeps `fill`.
pub open spec fn spread_spec<T>(per_position: Seq<T>, fill: T, n: int) -> Seq<T> {
    Seq::new(
        n as nat,
        |i: int|
            if per_position.len() > 0 {
                per_position[i % (per_position.len() as int)]
            } else {
                fill
            },
    )
}

/// Spreads one value per position within a period over `n` samples: sample
/// `i` gets `per_position[i % per_position.len()]`, and every sample gets
/// `fill` when `per_position` is empty.
pub fn spread_by_period<T: Copy>(per_position: &Vec<T>, n: usize, fill: T) -> (r: Vec<T>)
    ensures
        r@ == spread_spec(per_position@, fill, n as int),
        r@.len() == n,
        forall|i: int|
            0 <= i < n && per_position@.len() > 0 ==> (#[trigger] r@[i]) == per_position@[i
                % (per_position@.len() as int)],
        forall|i: int| 0 <= i < n && per_position@.len() == 0 ==> (#[trigger] r@[i]) == fill,
{
    let period = per_position.len();
    let mut r: Vec<T> = Vec::new();
    for i in 0..n
        invariant
            period == per_position@.len(),
            r@.len() == i,
            forall|q: int| 0 <= q < i ==> (#[trigger] r@[q]) == spread_spec(per_position@, fill, n as int)[q],
    {
        if period > 0 {
            r.push(per_position[i % period]);
        } else {
            r.push(fill);
        }
    }
    assert(r@ =~= spread_spec(per_position@, fill, n as int));
    r
}

/// Spreading gives every member of group `pos` the value of position `pos`,
/// which is what assigning each group its own value does.
pub proof fn lemma_spread_fills_groups<T>(per_position: Seq<T>, fill: T, n: int, pos: int, m: int)
    requires
        n <= usize::MAX,
        0 <= pos < per_position.len(),
        0 <= m < group_len(n, per_position.len() as int, pos),
    ensures
        spread_spec(per_position, fill, n)[group_spec(n, per_position.len() as int, pos)[m] as int]
            == per_position[pos],
{
    let p = per_position.len() as int;
    lemma_groups_partition(n, p, pos, pos, m);
}

} // verus!

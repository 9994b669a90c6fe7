use vstd::prelude::*;
use crate::signal::{sum_sq, lemma_sum_bounds, block_sums};
use crate::ncc::{SCALE, isqrt_spec, clamp_unit, quot_toward_zero, isqrt, unit_ratio, lemma_isqrt};

verus! {

/// Target rate of the coarse search, in samples per second.
pub const COARSE_SAMPLE_RATE: u32 = 4000;

/// Lags this close to the query's own position are not candidates.
pub const SELF_MATCH_MARGIN: usize = 100;

/// Least correlation, in millionths, that a search accepts as a match.
pub const MIN_CORRELATION: i32 = 300000;

/// Energy of the signal window of length `m` that starts at `lag`.
pub open spec fn lag_energy(signal: Seq<i16>, m: int, lag: int) -> int {
    sum_sq(signal.subrange(lag, lag + m))
}

/// Inner product `dot` normalized by the norms of windows with energies `e` and `qe`,
/// in millionths.
pub open spec fn coarse_score(dot: int, e: int, qe: int) -> int {
    clamp_unit(quot_toward_zero(dot * SCALE, isqrt_spec(e) * isqrt_spec(qe)))
}

/// Best (first highest) normalized correlation over the lags `0..i`, where the
/// inner product at `lag` is `conv[lag + m - 1]`; lags of a silent window are passed over.
pub open spec fn coarse_scan(signal: Seq<i16>, query: Seq<i16>, conv: Seq<i64>, i: int) -> (int, int)
    decreases i,
{
    if i <= 0 {
        (0, -SCALE as int)
    } else {
        let prev = coarse_scan(signal, query, conv, i - 1);
        let lag = i - 1;
        let m = query.len() as int;
        let e = lag_energy(signal, m, lag);
        let qe = sum_sq(query);
        let score = coarse_score(conv[lag + m - 1] as int, e, qe);
        if isqrt_spec(e) * isqrt_spec(qe) != 0 && score > prev.1 { (lag, score) } else { prev }
    }
}

/// Number of lags the coarse search considers: those clear of the query's own
/// position and covered by the convolution.
pub open spec fn coarse_lag_count(n: int, m: int, conv_len: int) -> int {
    let limit = if n >= m + SELF_MATCH_MARGIN { n - m - SELF_MATCH_MARGIN } else { 0 };
    let reach = if conv_len >= m - 1 { conv_len - (m - 1) } else { 0 };
    if limit < reach { limit } else { reach }
}

/// The lag of the coarse match, when its correlation reaches `MIN_CORRELATION`.
pub open spec fn coarse_lag_spec(signal: Seq<i16>, query: Seq<i16>, conv: Seq<i64>) -> Option<int> {
    let n = signal.len() as int;
    let m = query.len() as int;
    if m == 0 || n < m {
        None
    } else {
        let best = coarse_scan(signal, query, conv, coarse_lag_count(n, m, conv.len() as int));
        if best.1 < MIN_CORRELATION { None } else { Some(best.0) }
    }
}

/// No lag that the coarse search considers scores above the one it picks.
pub proof fn lemma_coarse_scan_is_max(signal: Seq<i16>, query: Seq<i16>, conv: Seq<i64>, i: int, k: int)
    requires
        0 <= k < i,
        isqrt_spec(lag_energy(signal, query.len() as int, k)) * isqrt_spec(sum_sq(query)) != 0,
    ensures
        coarse_score(
            conv[k + query.len() - 1] as int,
            lag_energy(signal, query.len() as int, k),
            sum_sq(query),
        ) <= coarse_scan(signal, query, conv, i).1,
    decreases i,
{
    if k < i - 1 {
        lemma_coarse_scan_is_max(signal, query, conv, i - 1, k);
    }
}

proof fn lemma_sum_sq_concat(a: Seq<i16>, b: Seq<i16>)
    ensures
        sum_sq(a + b) == sum_sq(a) + sum_sq(b),
    decreases b.len(),
{
    if b.len() > 0 {
        lemma_sum_sq_concat(a, b.drop_last());
        assert((a + b).drop_last() =~= a + b.drop_last());
    }
}

/// Sliding one window forward removes the sample that leaves and adds the one that enters.
proof fn lemma_slide(s: Seq<i16>, i: int, m: int)
    requires
        1 <= i,
        m >= 1,
        i + m <= s.len(),
    ensures
        sum_sq(s.subrange(i, i + m)) + (s[i - 1] as int) * (s[i - 1] as int)
            == sum_sq(s.subrange(i - 1, i - 1 + m)) + (s[i + m - 1] as int) * (s[i + m - 1] as int),
{
    let whole = s.subrange(i - 1, i + m);
    let head = s.subrange(i - 1, i);
    let tail = s.subrange(i + m - 1, i + m);
    assert(whole =~= head + s.subrange(i, i + m));
    assert(whole =~= s.subrange(i - 1, i - 1 + m) + tail);
    lemma_sum_sq_concat(head, s.subrange(i, i + m));
    lemma_sum_sq_concat(s.subrange(i - 1, i - 1 + m), tail);
    assert(head.drop_last() =~= Seq::<i16>::empty());
    assert(tail.drop_last() =~= Seq::<i16>::empty());
}

/// Energy of every window of length `window` in `data`, by a running sum of squares.
pub fn compute_moving_sum_squares(data: &Vec<i16>, window: usize) -> (energy: Vec<u128>)
    requires
        1 <= window <= data.len(),
    ensures
        energy@.len() == data.len() - window + 1,
        forall|i: int| 0 <= i < energy@.len() ==> energy@[i] as int == lag_energy(data@, window as int, i),
{
    let n = data.len();
    let count = n - window + 1;
    let mut energy: Vec<u128> = Vec::with_capacity(count);
    let (_, first) = block_sums(data, 0, window);
    let mut current: u128 = first;
    energy.push(current);
    let mut i: usize = 1;
    while i < count
        invariant
            n == data.len(),
            1 <= window <= n,
            count == n - window + 1,
            1 <= i <= count,
            energy@.len() == i,
            current as int == lag_energy(data@, window as int, i - 1),
            forall|k: int| 0 <= k < i ==> energy@[k] as int == lag_energy(data@, window as int, k),
        decreases count - i,
    {
        let out = data[i - 1];
        let inc = data[i + window - 1];
        proof {
            lemma_slide(data@, i as int, window as int);
            lemma_sum_bounds(data@.subrange(i as int, i + window));
            assert(0 <= (out as int) * (out as int) <= 1073741824) by (nonlinear_arith)
                requires -32768 <= out <= 32767;
            assert(0 <= (inc as int) * (inc as int) <= 1073741824) by (nonlinear_arith)
                requires -32768 <= inc <= 32767;
            assert(1073741824 * window <= 1073741824 * 18446744073709551615u128) by (nonlinear_arith)
                requires window <= 18446744073709551615u128;
        }
        let out_sq = (out as i32 * out as i32) as u128;
        let inc_sq = (inc as i32 * inc as i32) as u128;
        current = current + inc_sq - out_sq;
        energy.push(current);
        i = i + 1;
    }
    energy
}

/// Position of the best normalized match of `query` in `signal`, given their linear
/// convolution with the query reversed (`conv[k]` is the inner product of the query
/// with the signal window that starts at `k - (query.len() - 1)`). The norm of each
/// window comes from its own energy; `None` when no lag reaches `MIN_CORRELATION`.
pub fn find_best_lag(signal: &Vec<i16>, query: &Vec<i16>, conv: &Vec<i64>) -> (r: Option<usize>)
    ensures
        match r {
            Some(lag) => coarse_lag_spec(signal@, query@, conv@) == Some(lag as int),
            None => coarse_lag_spec(signal@, query@, conv@) is None,
        },
{
    let n = signal.len();
    let m = query.len();
    if m == 0 || n < m {
        return None;
    }
    let energy = compute_moving_sum_squares(signal, m);
    let (_, q_energy) = block_sums(query, 0, m);
    assert(query@.subrange(0, m as int) =~= query@);
    let q_norm = isqrt(q_energy);
    let limit = if n - m >= SELF_MATCH_MARGIN { n - m - SELF_MATCH_MARGIN } else { 0 };
    let reach = if conv.len() >= m - 1 { conv.len() - (m - 1) } else { 0 };
    let lags = if limit < reach { limit } else { reach };
    let mut best: i32 = -1000000;
    let mut best_lag: usize = 0;
    let mut lag: usize = 0;
    while lag < lags
        invariant
            n == signal.len(),
            m == query.len(),
            1 <= m <= n,
            lags == coarse_lag_count(n as int, m as int, conv.len() as int),
            lags <= n - m,
            lags > 0 ==> lags + m - 1 <= conv.len(),
            energy@.len() == n - m + 1,
            forall|i: int| 0 <= i < energy@.len() ==> energy@[i] as int == lag_energy(signal@, m as int, i),
            q_energy == sum_sq(query@),
            q_norm == isqrt_spec(q_energy as int),
            lag <= lags,
            (best_lag as int, best as int) == coarse_scan(signal@, query@, conv@, lag as int),
        decreases lags - lag,
    {
        let e = energy[lag];
        let e_norm = isqrt(e);
        proof {
            lemma_isqrt(e as int);
            lemma_isqrt(q_energy as int);
            assert(e_norm <= 18446744073709551615u128) by (nonlinear_arith)
                requires e_norm * e_norm <= e, e <= u128::MAX, e_norm >= 0;
            assert(q_norm <= 18446744073709551615u128) by (nonlinear_arith)
                requires q_norm * q_norm <= q_energy, q_energy <= u128::MAX, q_norm >= 0;
        }
        if e_norm > 0 && q_norm > 0 {
            proof {
                assert(e_norm * q_norm <= 18446744073709551615u128 * 18446744073709551615u128)
                    by (nonlinear_arith)
                    requires e_norm <= 18446744073709551615u128, q_norm <= 18446744073709551615u128,
                        e_norm >= 0, q_norm >= 0;
                assert(e_norm * q_norm > 0) by (nonlinear_arith) requires e_norm > 0, q_norm > 0;
            }
            let score = unit_ratio(conv[lag + m - 1] as i128, e_norm * q_norm);
            if score > best {
                best = score;
                best_lag = lag;
            }
        } else {
            proof {
                assert(e_norm * q_norm == 0) by (nonlinear_arith) requires e_norm == 0 || q_norm == 0;
            }
        }
        lag = lag + 1;
    }
    if best < MIN_CORRELATION {
        None
    } else {
        Some(best_lag)
    }
}

} // verus!

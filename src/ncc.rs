use vstd::prelude::*;
use crate::signal::{sum_of, sum_sq, dot, lemma_sum_bounds, lemma_dot_bounds, lemma_dot_step, lemma_sum_of_step, block_sums};

verus! {

/// Fixed-point unit of a correlation or a confidence: 1.0 is one million.
pub const SCALE: i32 = 1000000;

/// Longest window that the correlation arithmetic accepts (about 21 s at 192 kHz).
pub const MAX_WINDOW: usize = 4194304;

/// Integer square root, rounded down; zero for non-positive arguments.
pub open spec fn isqrt_spec(n: int) -> int
    decreases n,
{
    if n <= 0 {
        0
    } else {
        let r = isqrt_spec(n - 1);
        if (r + 1) * (r + 1) <= n { r + 1 } else { r }
    }
}

/// `x` held to the interval `[-SCALE, SCALE]`.
pub open spec fn clamp_unit(x: int) -> int {
    if x > SCALE { SCALE as int } else if x < -SCALE { -SCALE } else { x }
}

/// Quotient rounded toward zero.
pub open spec fn quot_toward_zero(num: int, den: int) -> int {
    if num >= 0 { num / den } else { -((-num) / den) }
}

/// `m` times the centred sum of squares of a window of length `m`.
pub open spec fn centered_var(s: Seq<i16>) -> int {
    s.len() * sum_sq(s) - sum_of(s) * sum_of(s)
}

/// `m` times the centred cross product of two windows of length `m`.
pub open spec fn centered_cov(q: Seq<i16>, c: Seq<i16>) -> int {
    q.len() * dot(q, c) - sum_of(q) * sum_of(c)
}

/// Norm of the centred window, up to the factor `sqrt(m)` that cancels in the ratio.
pub open spec fn centered_norm(s: Seq<i16>) -> int {
    isqrt_spec(centered_var(s))
}

/// Normalized cross-correlation of two windows of one length, in units of `SCALE`;
/// zero when either window is flat.
pub open spec fn ncc_spec(q: Seq<i16>, c: Seq<i16>) -> int {
    let den = centered_norm(q) * centered_norm(c);
    if den == 0 { 0 } else { clamp_unit(quot_toward_zero(centered_cov(q, c) * SCALE, den)) }
}

/// The candidate window of the search that starts at `off`.
pub open spec fn candidate(q: Seq<i16>, full: Seq<i16>, off: int) -> Seq<i16> {
    full.subrange(off, off + q.len())
}

/// Best (first highest) correlation over the candidate offsets `start..i`, as the
/// offset relative to `start` and the score; `(0, -SCALE)` when no candidate beats
/// `-SCALE`. Flat candidates are passed over.
pub open spec fn fine_scan(q: Seq<i16>, full: Seq<i16>, start: int, i: int) -> (int, int)
    decreases i - start,
{
    if i <= start {
        (0, -SCALE as int)
    } else {
        let prev = fine_scan(q, full, start, i - 1);
        let c = candidate(q, full, i - 1);
        if centered_norm(c) != 0 && ncc_spec(q, c) > prev.1 {
            (i - 1 - start, ncc_spec(q, c))
        } else {
            prev
        }
    }
}

/// Result of the fine search over the offsets `start..end`, cut to those whose window
/// lies inside `full`; `(0, 0)` for a flat query or an empty range.
pub open spec fn fine_match_spec(q: Seq<i16>, full: Seq<i16>, start: int, end: int) -> (int, int) {
    let last = if full.len() >= q.len() { full.len() - q.len() } else { 0 };
    let max_off = if end < last { end } else { last };
    if centered_norm(q) == 0 || max_off < start {
        (0, 0)
    } else {
        fine_scan(q, full, start, max_off)
    }
}

pub proof fn lemma_isqrt(n: int)
    ensures
        0 <= isqrt_spec(n),
        n >= 0 ==> isqrt_spec(n) * isqrt_spec(n) <= n < (isqrt_spec(n) + 1) * (isqrt_spec(n) + 1),
    decreases n,
{
    if n > 0 {
        lemma_isqrt(n - 1);
        let r = isqrt_spec(n - 1);
        assert(n < (r + 2) * (r + 2)) by (nonlinear_arith)
            requires n - 1 < (r + 1) * (r + 1), r >= 0;
    }
}

/// The integer square root is the only `r` with `r * r <= n < (r + 1) * (r + 1)`.
pub proof fn lemma_isqrt_unique(n: int, r: int)
    requires
        n >= 0,
        r >= 0,
        r * r <= n < (r + 1) * (r + 1),
    ensures
        isqrt_spec(n) == r,
{
    lemma_isqrt(n);
    let s = isqrt_spec(n);
    if s < r {
        assert((s + 1) * (s + 1) <= r * r) by (nonlinear_arith) requires 0 <= s < r;
    } else if s > r {
        assert((r + 1) * (r + 1) <= s * s) by (nonlinear_arith) requires 0 <= r < s;
    }
}

proof fn lemma_dot_self(q: Seq<i16>)
    ensures
        dot(q, q) == sum_sq(q),
    decreases q.len(),
{
    if q.len() > 0 {
        lemma_dot_self(q.drop_last());
        assert(q.take(q.len() - 1) =~= q.drop_last());
    }
}

proof fn lemma_negated_sums(q: Seq<i16>, c: Seq<i16>)
    requires
        c.len() == q.len(),
        forall|i: int| 0 <= i < q.len() ==> c[i] as int == -(q[i] as int),
    ensures
        sum_of(c) == -sum_of(q),
        sum_sq(c) == sum_sq(q),
        dot(q, c) == -sum_sq(q),
    decreases q.len(),
{
    if q.len() > 0 {
        let n = q.len() - 1;
        lemma_negated_sums(q.drop_last(), c.drop_last());
        assert(c.take(n) =~= c.drop_last());
        let x = q.last() as int;
        assert(x * (-x) == -(x * x)) by (nonlinear_arith);
        assert((-x) * (-x) == x * x) by (nonlinear_arith);
    }
}

/// A score `var * SCALE / (n * n)` with `n * n <= var` reaches the top of the scale.
proof fn lemma_ratio_at_least_unit(var: int, n: int)
    requires
        n > 0,
        n * n <= var,
    ensures
        (var * SCALE) / (n * n) >= SCALE,
{
    assert(n * n > 0) by (nonlinear_arith) requires n > 0;
    assert(n * n * SCALE <= var * SCALE) by (nonlinear_arith) requires n * n <= var;
    vstd::arithmetic::div_mod::lemma_div_is_ordered(n * n * SCALE, var * SCALE, n * n);
    vstd::arithmetic::div_mod::lemma_div_multiples_vanish(SCALE as int, n * n);
    assert(n * n * SCALE == (n * n) * (SCALE as int)) by (nonlinear_arith);
}

/// A window correlated with itself scores exactly 1.0, provided it is not flat.
pub proof fn lemma_ncc_self_match(q: Seq<i16>)
    requires
        centered_norm(q) > 0,
    ensures
        ncc_spec(q, q) == SCALE,
{
    lemma_dot_self(q);
    let var = centered_var(q);
    let n = centered_norm(q);
    lemma_isqrt(var);
    assert(centered_cov(q, q) == var);
    assert(n * n > 0) by (nonlinear_arith) requires n > 0;
    assert(var > 0);
    lemma_ratio_at_least_unit(var, n);
}

/// A window correlated with its negation scores exactly -1.0, provided it is not flat.
pub proof fn lemma_ncc_anti_match(q: Seq<i16>, c: Seq<i16>)
    requires
        centered_norm(q) > 0,
        c.len() == q.len(),
        forall|i: int| 0 <= i < q.len() ==> c[i] as int == -(q[i] as int),
    ensures
        ncc_spec(q, c) == -SCALE,
{
    lemma_negated_sums(q, c);
    let var = centered_var(q);
    let n = centered_norm(q);
    lemma_isqrt(var);
    assert(centered_var(c) == var) by (nonlinear_arith)
        requires sum_of(c) == -sum_of(q), sum_sq(c) == sum_sq(q), c.len() == q.len(),
            var == centered_var(q);
    assert(centered_cov(q, c) == -var) by (nonlinear_arith)
        requires sum_of(c) == -sum_of(q), dot(q, c) == -sum_sq(q), var == centered_var(q);
    assert(n * n > 0) by (nonlinear_arith) requires n > 0;
    assert(var > 0);
    assert(-(-var * SCALE) == var * SCALE);
    lemma_ratio_at_least_unit(var, n);
}

/// No candidate in range scores above the result of the scan, and the result never
/// exceeds 1.0.
pub proof fn lemma_fine_scan_is_max(q: Seq<i16>, full: Seq<i16>, start: int, i: int, k: int)
    requires
        start <= k < i,
        centered_norm(candidate(q, full, k)) != 0,
    ensures
        ncc_spec(q, candidate(q, full, k)) <= fine_scan(q, full, start, i).1 <= SCALE,
    decreases i - start,
{
    lemma_fine_scan_bounded(q, full, start, i);
    if k < i - 1 {
        lemma_fine_scan_is_max(q, full, start, i - 1, k);
    }
}

/// A scan that found a candidate reports an offset inside the scanned range.
pub proof fn lemma_fine_scan_offset(q: Seq<i16>, full: Seq<i16>, start: int, i: int)
    ensures
        fine_scan(q, full, start, i).0 >= 0,
        fine_scan(q, full, start, i).1 >= -SCALE,
        fine_scan(q, full, start, i).1 > -SCALE ==> start + fine_scan(q, full, start, i).0 < i,
    decreases i - start,
{
    if i > start {
        lemma_fine_scan_offset(q, full, start, i - 1);
    }
}

pub proof fn lemma_fine_scan_bounded(q: Seq<i16>, full: Seq<i16>, start: int, i: int)
    ensures
        fine_scan(q, full, start, i).1 <= SCALE,
    decreases i - start,
{
    if i > start {
        lemma_fine_scan_bounded(q, full, start, i - 1);
    }
}

/// Searching for a window inside the very signal it was cut from, with its position in
/// the searched range, yields a correlation of exactly 1.0.
pub proof fn lemma_self_match_found(q: Seq<i16>, full: Seq<i16>, start: int, end: int, off: int)
    requires
        0 <= start <= off < end,
        off + q.len() < full.len(),
        q == candidate(q, full, off),
        centered_norm(q) > 0,
    ensures
        fine_match_spec(q, full, start, end).1 == SCALE,
{
    lemma_ncc_self_match(q);
    lemma_fine_scan_is_max(q, full, start, if end < full.len() - q.len() { end } else { full.len() - q.len() }, off);
}

/// Integer square root of `n`, rounded down.
pub fn isqrt(n: u128) -> (r: u128)
    ensures
        r == isqrt_spec(n as int),
        r * r <= n,
{
    let mut lo: u128 = 0;
    let mut hi: u128 = 18446744073709551616;
    assert(n < hi * hi) by (nonlinear_arith) requires hi == 18446744073709551616, n <= u128::MAX;
    while hi - lo > 1
        invariant
            lo < hi <= 18446744073709551616,
            lo * lo <= n,
            n < hi * hi,
        decreases hi - lo,
    {
        let mid = lo + (hi - lo) / 2;
        assert(mid * mid <= u128::MAX) by (nonlinear_arith) requires mid < 18446744073709551616;
        if mid * mid <= n {
            lo = mid;
        } else {
            hi = mid;
        }
    }
    proof {
        lemma_isqrt_unique(n as int, lo as int);
    }
    lo
}

/// Sums of a candidate window and its inner product with the query.
fn window_stats(q: &Vec<i16>, full: &Vec<i16>, off: usize) -> (r: (i128, i128, i128))
    requires
        q.len() <= MAX_WINDOW,
        off + q.len() <= full.len(),
    ensures
        r.0 == sum_of(candidate(q@, full@, off as int)),
        r.1 == sum_sq(candidate(q@, full@, off as int)),
        r.2 == dot(q@, candidate(q@, full@, off as int)),
{
    let m = q.len();
    let ghost c = candidate(q@, full@, off as int);
    let mut s: i128 = 0;
    let mut ss: i128 = 0;
    let mut d: i128 = 0;
    let mut j: usize = 0;
    while j < m
        invariant
            m == q.len() <= MAX_WINDOW,
            off + m <= full.len(),
            c == candidate(q@, full@, off as int),
            j <= m,
            s == sum_of(c.take(j as int)),
            ss == sum_sq(c.take(j as int)),
            d == dot(q@.take(j as int), c),
        decreases m - j,
    {
        let x = full[off + j];
        let y = q[j];
        proof {
            assert(c[j as int] == x);
            lemma_sum_of_step(c, j as int);
            lemma_dot_step(q@, c, j as int);
            lemma_sum_bounds(c.take(j as int));
            lemma_dot_bounds(q@.take(j as int), c);
            assert(-1073741824 <= (x as int) * (y as int) <= 1073741824) by (nonlinear_arith)
                requires -32768 <= x <= 32767, -32768 <= y <= 32767;
            assert(0 <= (x as int) * (x as int) <= 1073741824) by (nonlinear_arith)
                requires -32768 <= x <= 32767;
        }
        s = s + x as i128;
        ss = ss + (x as i32 * x as i32) as i128;
        d = d + (y as i32 * x as i32) as i128;
        j = j + 1;
    }
    assert(c.take(m as int) =~= c);
    assert(q@.take(m as int) =~= q@);
    (s, ss, d)
}

/// `m * sumsq - sum * sum` of a window of length `m`.
fn centered(m: usize, sum: i128, sumsq: i128) -> (r: i128)
    requires
        m <= MAX_WINDOW,
        -32768 * m <= sum <= 32768 * m,
        0 <= sumsq <= 1073741824 * m,
    ensures
        r == m * sumsq - sum * sum,
        -1208925819614629174706176 < r < 1208925819614629174706176,
{
    proof {
        assert(0 <= m * sumsq <= 1073741824 * 4194304 * 4194304) by (nonlinear_arith)
            requires m <= 4194304, 0 <= sumsq <= 1073741824 * m;
        assert(0 <= sum * sum <= 32768 * 4194304 * 32768 * 4194304) by (nonlinear_arith)
            requires m <= 4194304, -32768 * m <= sum <= 32768 * m;
    }
    m as i128 * sumsq - sum * sum
}

/// `num * SCALE / den` rounded toward zero, held to `[-SCALE, SCALE]`.
pub(crate) fn unit_ratio(num: i128, den: u128) -> (r: i32)
    requires
        den > 0,
        -1267650600228229401496703205376 < num < 1267650600228229401496703205376,
    ensures
        r == clamp_unit(quot_toward_zero(num * SCALE, den as int)),
{
    let scaled: i128 = num * 1000000;
    let mag: u128 = if scaled >= 0 { scaled as u128 } else { (-scaled) as u128 };
    let q: u128 = mag / den;
    if q > 1000000 {
        if scaled >= 0 { 1000000 } else { -1000000 }
    } else {
        if scaled >= 0 { q as i32 } else { -(q as i32) }
    }
}

/// Correlation of the query against the candidate window at `off`, given the query's
/// sum and centred norm.
fn candidate_score(q: &Vec<i16>, full: &Vec<i16>, off: usize, q_sum: i128, q_norm: u128) -> (r: (bool, i32))
    requires
        q.len() <= MAX_WINDOW,
        off + q.len() <= full.len(),
        q_sum == sum_of(q@),
        q_norm == centered_norm(q@),
        q_norm > 0,
    ensures
        r.0 == (centered_norm(candidate(q@, full@, off as int)) != 0),
        r.0 ==> r.1 == ncc_spec(q@, candidate(q@, full@, off as int)),
{
    let m = q.len();
    let ghost c = candidate(q@, full@, off as int);
    let (s, ss, d) = window_stats(q, full, off);
    proof {
        lemma_sum_bounds(c);
        lemma_sum_bounds(q@);
        lemma_dot_bounds(q@, c);
    }
    let var_c = centered(m, s, ss);
    let c_norm = if var_c <= 0 { 0 } else { isqrt(var_c as u128) };
    if c_norm == 0 {
        return (false, 0);
    }
    proof {
        lemma_isqrt(centered_var(q@));
        lemma_isqrt(var_c as int);
        assert(centered_var(q@) <= 1208925819614629174706176) by (nonlinear_arith)
            requires
                m == q@.len(),
                m <= 4194304,
                0 <= sum_sq(q@) <= 1073741824 * m,
                centered_var(q@) == m * sum_sq(q@) - sum_of(q@) * sum_of(q@);
        assert(q_norm * q_norm <= 1208925819614629174706176);
        assert(c_norm * c_norm <= 1208925819614629174706176);
        assert(q_norm <= 1099511627776) by (nonlinear_arith)
            requires q_norm * q_norm <= 1208925819614629174706176, q_norm >= 0;
        assert(c_norm <= 1099511627776) by (nonlinear_arith)
            requires c_norm * c_norm <= 1208925819614629174706176, c_norm >= 0;
        assert(q_norm * c_norm <= 1099511627776 * 1099511627776) by (nonlinear_arith)
            requires q_norm <= 1099511627776, c_norm <= 1099511627776, q_norm >= 0, c_norm >= 0;
        assert(q_norm * c_norm > 0) by (nonlinear_arith) requires q_norm > 0, c_norm > 0;
        assert(m * d <= 1073741824 * 4194304 * 4194304) by (nonlinear_arith)
            requires m <= 4194304, d <= 1073741824 * m;
        assert(m * d >= -1073741824 * 4194304 * 4194304) by (nonlinear_arith)
            requires m <= 4194304, d >= -1073741824 * m;
        assert(-32768 * 4194304 * 32768 * 4194304 <= q_sum * s <= 32768 * 4194304 * 32768 * 4194304)
            by (nonlinear_arith)
            requires m <= 4194304, -32768 * m <= q_sum <= 32768 * m, -32768 * m <= s <= 32768 * m;
    }
    let cov: i128 = m as i128 * d - q_sum * s;
    let score = unit_ratio(cov, q_norm * c_norm);
    (true, score)
}

/// Exhaustive normalized cross-correlation of `query` against every window of `full`
/// that starts in `search_start..search_end`: the offset (relative to `search_start`)
/// of the first best window, and its score in units of `SCALE`.
pub fn find_best_match_ncc_fine(query: &Vec<i16>, full: &Vec<i16>, search_start: usize, search_end: usize) -> (r: (usize, i32))
    requires
        query.len() <= MAX_WINDOW,
    ensures
        r.0 == fine_match_spec(query@, full@, search_start as int, search_end as int).0,
        r.1 == fine_match_spec(query@, full@, search_start as int, search_end as int).1,
{
    let m = query.len();
    let (q_sum, q_sumsq) = block_sums(query, 0, m);
    assert(query@.subrange(0, m as int) =~= query@);
    proof {
        lemma_sum_bounds(query@);
    }
    let var_q = centered(m, q_sum, q_sumsq as i128);
    let q_norm = if var_q <= 0 { 0 } else { isqrt(var_q as u128) };
    if q_norm == 0 {
        return (0, 0);
    }
    let last = if full.len() >= m { full.len() - m } else { 0 };
    let max_offset = if search_end < last { search_end } else { last };
    if max_offset < search_start {
        return (0, 0);
    }
    let mut best: i32 = -1000000;
    let mut best_off: usize = 0;
    let mut i: usize = search_start;
    while i < max_offset
        invariant
            m == query.len() <= MAX_WINDOW,
            search_start <= i <= max_offset,
            max_offset > 0 ==> max_offset + m <= full.len(),
            q_sum == sum_of(query@),
            q_norm == centered_norm(query@),
            q_norm > 0,
            (best_off as int, best as int) == fine_scan(query@, full@, search_start as int, i as int),
        decreases max_offset - i,
    {
        let (flat_free, score) = candidate_score(query, full, i, q_sum, q_norm);
        if flat_free && score > best {
            best = score;
            best_off = i - search_start;
        }
        i = i + 1;
    }
    (best_off, best)
}

} // verus!

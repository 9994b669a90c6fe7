use vstd::prelude::*;
use vstd::arithmetic::div_mod::{lemma_fundamental_div_mod, lemma_mod_pos_bound, lemma_hoist_over_denominator, lemma_div_is_ordered, lemma_div_multiples_vanish};

verus! {

pub open spec fn abs_spec(x: int) -> int {
    if x < 0 { -x } else { x }
}

/// Sum of the samples.
pub open spec fn sum_of(s: Seq<i16>) -> int
    decreases s.len(),
{
    if s.len() == 0 { 0 } else { sum_of(s.drop_last()) + s.last() as int }
}

/// Sum of the squared samples (the energy of the window).
pub open spec fn sum_sq(s: Seq<i16>) -> int
    decreases s.len(),
{
    if s.len() == 0 { 0 } else { sum_sq(s.drop_last()) + (s.last() as int) * (s.last() as int) }
}

/// Inner product of two sequences over the length of the first.
pub open spec fn dot(a: Seq<i16>, b: Seq<i16>) -> int
    decreases a.len(),
{
    if a.len() == 0 || b.len() < a.len() {
        0
    } else {
        dot(a.drop_last(), b.take(a.len() - 1)) + (a.last() as int) * (b[a.len() - 1] as int)
    }
}

/// Arithmetic mean, rounded down.
pub open spec fn mean_floor(s: Seq<i16>) -> int {
    if s.len() == 0 { 0 } else { sum_of(s) / (s.len() as int) }
}

/// The mono signal of an interleaved buffer: frame `i` is the mean of its channel group.
pub open spec fn mono_spec(samples: Seq<i16>, channels: int) -> Seq<i16> {
    Seq::new(
        ((samples.len() as int) / channels) as nat,
        |i: int| mean_floor(samples.subrange(i * channels, i * channels + channels)) as i16,
    )
}

/// Box-filter downsampling: the mean of each block of `step` samples, the last block
/// possibly shorter.
pub open spec fn downsample_spec(data: Seq<i16>, step: int) -> Seq<i16> {
    if step <= 1 {
        data
    } else {
        Seq::new(
            ((data.len() as int + step - 1) / step) as nat,
            |i: int|
                mean_floor(
                    data.subrange(
                        i * step,
                        if i * step + step <= data.len() { i * step + step } else { data.len() as int },
                    ),
                ) as i16,
        )
    }
}

/// One past the last index whose sample magnitude exceeds `floor`; zero when there is none.
pub open spec fn last_loud_end(s: Seq<i16>, floor: int) -> int
    decreases s.len(),
{
    if s.len() == 0 {
        0
    } else if abs_spec(s.last() as int) > floor {
        s.len() as int
    } else {
        last_loud_end(s.drop_last(), floor)
    }
}

/// End of the audible content: trailing samples at or below `floor` are cut, and a
/// buffer with no sample above it keeps its whole length.
pub open spec fn effective_end_spec(s: Seq<i16>, floor: int) -> int {
    if last_loud_end(s, floor) == 0 { s.len() as int } else { last_loud_end(s, floor) }
}

proof fn lemma_loud_end_after_quiet_tail(s: Seq<i16>, floor: int, k: int)
    requires
        floor >= 0,
        0 <= k <= s.len(),
        forall|j: int| s.len() - k <= j < s.len() ==> s[j] == 0,
    ensures
        last_loud_end(s, floor) <= s.len() - k,
    decreases s.len(),
{
    if s.len() > 0 {
        if k > 0 {
            assert(s.last() == 0);
            lemma_loud_end_after_quiet_tail(s.drop_last(), floor, k - 1);
        } else {
            lemma_loud_end_at_most_len(s, floor);
        }
    }
}

proof fn lemma_loud_end_at_most_len(s: Seq<i16>, floor: int)
    ensures
        0 <= last_loud_end(s, floor) <= s.len(),
    decreases s.len(),
{
    if s.len() > 0 {
        lemma_loud_end_at_most_len(s.drop_last(), floor);
    }
}

proof fn lemma_loud_end_found(s: Seq<i16>, floor: int, i: int)
    requires
        0 <= i < s.len(),
        abs_spec(s[i] as int) > floor,
    ensures
        last_loud_end(s, floor) > i,
    decreases s.len(),
{
    if i < s.len() - 1 && abs_spec(s.last() as int) <= floor {
        lemma_loud_end_found(s.drop_last(), floor, i);
    }
}

proof fn lemma_loud_end_none(s: Seq<i16>, floor: int)
    requires
        forall|j: int| 0 <= j < s.len() ==> abs_spec(s[j] as int) <= floor,
    ensures
        last_loud_end(s, floor) == 0,
    decreases s.len(),
{
    if s.len() > 0 {
        lemma_loud_end_none(s.drop_last(), floor);
    }
}

/// A buffer whose last `k` samples are zero, and which holds some sample above the
/// floor, has its effective end at most `k` samples before its length.
pub proof fn lemma_trailing_zeros_trimmed(s: Seq<i16>, floor: int, k: int, loud: int)
    requires
        floor >= 0,
        0 <= k <= s.len(),
        forall|j: int| s.len() - k <= j < s.len() ==> s[j] == 0,
        0 <= loud < s.len(),
        abs_spec(s[loud] as int) > floor,
    ensures
        effective_end_spec(s, floor) <= s.len() - k,
{
    lemma_loud_end_after_quiet_tail(s, floor, k);
    lemma_loud_end_found(s, floor, loud);
}

/// A buffer with no sample above the floor (an all-zero buffer, for one) keeps its whole
/// length as its effective end.
pub proof fn lemma_quiet_buffer_keeps_length(s: Seq<i16>, floor: int)
    requires
        forall|j: int| 0 <= j < s.len() ==> abs_spec(s[j] as int) <= floor,
    ensures
        effective_end_spec(s, floor) == s.len(),
{
    lemma_loud_end_none(s, floor);
}

pub proof fn lemma_sum_of_step(s: Seq<i16>, j: int)
    requires
        0 <= j < s.len(),
    ensures
        sum_of(s.take(j + 1)) == sum_of(s.take(j)) + s[j] as int,
        sum_sq(s.take(j + 1)) == sum_sq(s.take(j)) + (s[j] as int) * (s[j] as int),
{
    assert(s.take(j + 1).drop_last() =~= s.take(j));
}

pub proof fn lemma_dot_step(a: Seq<i16>, b: Seq<i16>, j: int)
    requires
        0 <= j < a.len(),
        a.len() <= b.len(),
    ensures
        dot(a.take(j + 1), b) == dot(a.take(j), b) + (a[j] as int) * (b[j] as int),
{
    lemma_dot_prefix(a.take(j + 1), b);
    lemma_dot_prefix(a.take(j), b);
    assert(a.take(j + 1).drop_last() =~= a.take(j));
    assert(b.take(j + 1).take(j) =~= b.take(j));
}

/// Only the first `a.len()` elements of `b` take part in the product.
pub proof fn lemma_dot_prefix(a: Seq<i16>, b: Seq<i16>)
    requires
        a.len() <= b.len(),
    ensures
        dot(a, b) == dot(a, b.take(a.len() as int)),
    decreases a.len(),
{
    if a.len() > 0 {
        let n = a.len() - 1;
        assert(b.take(a.len() as int).take(n) =~= b.take(n));
    }
}

pub proof fn lemma_sum_bounds(s: Seq<i16>)
    ensures
        -32768 * s.len() <= sum_of(s) <= 32767 * s.len(),
        0 <= sum_sq(s) <= 1073741824 * s.len(),
    decreases s.len(),
{
    if s.len() > 0 {
        lemma_sum_bounds(s.drop_last());
        let x = s.last() as int;
        assert(0 <= x * x <= 1073741824) by (nonlinear_arith)
            requires -32768 <= x <= 32767;
    }
}

pub proof fn lemma_dot_bounds(a: Seq<i16>, b: Seq<i16>)
    ensures
        -1073741824 * a.len() <= dot(a, b) <= 1073741824 * a.len(),
    decreases a.len(),
{
    if a.len() > 0 && b.len() >= a.len() {
        lemma_dot_bounds(a.drop_last(), b.take(a.len() - 1));
        let x = a.last() as int;
        let y = b[a.len() - 1] as int;
        assert(-1073741824 <= x * y <= 1073741824) by (nonlinear_arith)
            requires -32768 <= x <= 32767, -32768 <= y <= 32767;
    }
}

/// Sum of `data[start..end]`, with its energy.
pub fn block_sums(data: &Vec<i16>, start: usize, end: usize) -> (r: (i128, u128))
    requires
        start <= end <= data.len(),
    ensures
        r.0 == sum_of(data@.subrange(start as int, end as int)),
        r.1 == sum_sq(data@.subrange(start as int, end as int)),
{
    let ghost s = data@.subrange(start as int, end as int);
    let mut acc: i128 = 0;
    let mut acc_sq: u128 = 0;
    let mut i: usize = start;
    while i < end
        invariant
            start <= i <= end <= data.len(),
            s == data@.subrange(start as int, end as int),
            acc == sum_of(s.take(i - start)),
            acc_sq == sum_sq(s.take(i - start)),
        decreases end - i,
    {
        let x = data[i];
        proof {
            lemma_sum_of_step(s, i - start);
            lemma_sum_bounds(s.take(i - start));
            assert(s[i - start] == x);
        }
        proof {
            assert(0 <= (x as int) * (x as int) <= 1073741824) by (nonlinear_arith)
                requires -32768 <= x <= 32767;
            assert((i - start + 1) * 1073741824 <= u128::MAX) by (nonlinear_arith)
                requires i - start + 1 <= usize::MAX;
        }
        let sq: u128 = (x as i32 * x as i32) as u128;
        acc = acc + x as i128;
        acc_sq = acc_sq + sq;
        i = i + 1;
    }
    assert(s.take(end - start) =~= s);
    (acc, acc_sq)
}

/// Floor mean of a block of `len` samples whose sum is `sum`.
fn mean_of_block(sum: i128, len: usize) -> (r: i16)
    requires
        len > 0,
        -32768 * len <= sum <= 32767 * len,
    ensures
        r == (sum as int) / (len as int),
{
    let shifted: u128 = (sum + 32768 * len as i128) as u128;
    let q: u128 = shifted / len as u128;
    proof {
        lemma_hoist_over_denominator(sum as int, 32768, len as nat);
        lemma_div_is_ordered(0, shifted as int, len as int);
        lemma_div_is_ordered(shifted as int, 65535 * len, len as int);
        lemma_div_multiples_vanish(65535, len as int);
        assert(65535 * len == len * 65535) by (nonlinear_arith);
        assert(0int / (len as int) == 0) by (nonlinear_arith) requires len > 0;
    }
    (q as i64 - 32768) as i16
}

/// Interleaved samples to mono: each frame becomes the mean of its channels.
pub fn mix_to_mono(samples: &Vec<i16>, channels: u16) -> (mono: Vec<i16>)
    requires
        channels >= 1,
    ensures
        mono@ == mono_spec(samples@, channels as int),
        mono@.len() == (samples@.len() as int) / (channels as int),
{
    let c = channels as usize;
    let total = samples.len();
    let frames = total / c;
    let mut mono: Vec<i16> = Vec::with_capacity(frames);
    let mut i: usize = 0;
    while i < frames
        invariant
            c == channels as usize,
            c >= 1,
            total == samples@.len(),
            frames == (samples@.len() as int) / (c as int),
            i <= frames,
            mono@.len() == i,
            forall|k: int| 0 <= k < i ==> mono@[k] == mono_spec(samples@, c as int)[k],
        decreases frames - i,
    {
        proof {
            lemma_fundamental_div_mod(samples@.len() as int, c as int);
            lemma_mod_pos_bound(samples@.len() as int, c as int);
            assert(i * c + c <= frames * c) by (nonlinear_arith)
                requires i < frames, c >= 1;
            assert(frames * c == c * frames) by (nonlinear_arith);
        }
        let start: usize = i * c;
        let (sum, _) = block_sums(samples, start, start + c);
        proof {
            lemma_sum_bounds(samples@.subrange(start as int, start + c));
        }
        let m = mean_of_block(sum, c);
        mono.push(m);
        i = i + 1;
    }
    assert(mono@ =~= mono_spec(samples@, c as int));
    mono
}

/// Box-filter downsampling by `step`.
pub fn downsample(data: &Vec<i16>, step: usize) -> (r: Vec<i16>)
    ensures
        r@ == downsample_spec(data@, step as int),
{
    if step <= 1 {
        return data.clone();
    }
    let n = data.len();
    assert((n as int) / (step as int) < n || n == 0) by (nonlinear_arith) requires step > 1;
    let blocks = n / step + if n % step == 0 { 0 } else { 1 };
    proof {
        assert(blocks == (n + step - 1) / (step as int)) by (nonlinear_arith)
            requires step > 1, blocks == n / step + if n % step == 0 { 0int } else { 1int };
    }
    let mut out: Vec<i16> = Vec::with_capacity(blocks);
    let mut i: usize = 0;
    while i < blocks
        invariant
            step > 1,
            n == data.len(),
            blocks == (n + step - 1) / (step as int),
            i <= blocks,
            out@.len() == i,
            forall|k: int| 0 <= k < i ==> out@[k] == downsample_spec(data@, step as int)[k],
        decreases blocks - i,
    {
        proof {
            assert(i * step < n) by (nonlinear_arith)
                requires i < blocks, blocks == (n + step - 1) / (step as int), step > 1;
        }
        let start = i * step;
        let end = if n - start >= step { start + step } else { n };
        let (sum, _) = block_sums(data, start, end);
        proof {
            lemma_sum_bounds(data@.subrange(start as int, end as int));
        }
        let m = mean_of_block(sum, end - start);
        out.push(m);
        i = i + 1;
    }
    assert(out@ =~= downsample_spec(data@, step as int));
    out
}

/// Index one past the last sample louder than `floor`; the whole length when no
/// sample is.
pub fn find_effective_end(mono: &Vec<i16>, floor: u32) -> (r: usize)
    ensures
        r == effective_end_spec(mono@, floor as int),
        r <= mono@.len(),
{
    let mut i: usize = mono.len();
    assert(mono@.take(i as int) =~= mono@);
    while i > 0
        invariant
            i <= mono@.len(),
            last_loud_end(mono@, floor as int) == last_loud_end(mono@.take(i as int), floor as int),
        decreases i,
    {
        let x = mono[i - 1];
        let mag: u32 = if x < 0 { (-(x as i32)) as u32 } else { x as u32 };
        assert(mono@.take(i as int).last() == x);
        if mag > floor {
            return i;
        }
        assert(mono@.take(i as int).drop_last() =~= mono@.take(i - 1));
        i = i - 1;
    }
    mono.len()
}

} // verus!

use vstd::prelude::*;
use crate::{AnalysisSettings, FadeOutInfo};
use crate::signal::{sum_sq, effective_end_spec, find_effective_end, block_sums};

verus! {

/// Fixed confidence given to every detected fade-out, in millionths.
pub const FADE_CONFIDENCE: i32 = 800000;

/// Number of samples in `ms` milliseconds at `rate` samples per second, rounded down.
pub open spec fn ms_to_samples(ms: int, rate: int) -> int {
    ms * rate / 1000
}

/// Energy of the `j`-th window of length `w`, counted backward from `end`.
pub open spec fn window_energy(mono: Seq<i16>, end: int, w: int, j: int) -> int {
    sum_sq(mono.subrange(end - (j + 1) * w, end - j * w))
}

/// Energies of the windows walked backward from `end`, newest first.
pub open spec fn energy_history(mono: Seq<i16>, end: int, w: int, n: int) -> Seq<int> {
    Seq::new(n as nat, |j: int| window_energy(mono, end, w, j))
}

/// Going one window further back, the level rises by more than 1% in energy: smaller
/// changes are the jitter of a steady level, not the slope of a fade.
pub open spec fn is_rise(h: Seq<int>, i: int) -> bool {
    100 * h[i + 1] > 101 * h[i]
}

/// Going one window further back, the level falls below 90% of the RMS (81% of the
/// energy): the fade cannot reach back past this point.
pub open spec fn is_drop(h: Seq<int>, i: int) -> bool {
    100 * h[i + 1] < 81 * h[i]
}

/// First step at or after `i` where the level drops, or the last index when none does.
pub open spec fn first_drop_from(h: Seq<int>, i: int) -> int
    decreases h.len() - i,
{
    if i >= h.len() - 1 {
        h.len() - 1
    } else if is_drop(h, i) {
        i
    } else {
        first_drop_from(h, i + 1)
    }
}

/// The furthest window back, at or below `b`, reached by a rise; zero when there is none.
pub open spec fn last_rise_below(h: Seq<int>, b: int) -> int
    decreases b,
{
    if b <= 0 {
        0
    } else if is_rise(h, b - 1) {
        b
    } else {
        last_rise_below(h, b - 1)
    }
}

/// Index in the history of the window where the fade begins: walking back from the
/// end through rises and small dips, the last rise before the first large drop.
pub open spec fn fade_onset(h: Seq<int>) -> int {
    last_rise_below(h, first_drop_from(h, 0))
}

/// The fade-out of a mono signal, as described by its parameters.
pub open spec fn fade_out_spec(mono: Seq<i16>, rate: int, channels: int, s: AnalysisSettings) -> Option<FadeOutInfo> {
    let thr = s.fade_out_threshold_volume as int;
    let end = effective_end_spec(mono, thr / 2);
    let w = ms_to_samples(s.fade_out_window_size_ms as int, rate);
    let scan_start = if end >= 60 * rate { end - 60 * rate } else { 0 };
    let n = (end - scan_start) / w;
    let h = energy_history(mono, end, w, n);
    let onset = fade_onset(h);
    let start = end - (onset + 1) * w;
    let duration = end - start;
    if end < 5 * rate || w == 0 || w >= end || n < 5 {
        None
    } else if duration < ms_to_samples(s.min_fade_out_duration_ms as int, rate) {
        None
    } else if h[onset] < thr * thr * w || h[onset] < 4 * h[0] {
        None
    } else {
        Some(FadeOutInfo {
            start_sample: (start * channels) as usize,
            duration_samples: (duration * channels) as usize,
            confidence: FADE_CONFIDENCE,
        })
    }
}

/// Detects a fade-out at the end of a mono signal: backward RMS windows from the end of
/// the audible content, the run of rising level that reaches furthest back, and the
/// gates on its length, its starting level and its total decay.
pub fn detect_fade_out(mono: &Vec<i16>, sample_rate: u32, channels: usize, settings: &AnalysisSettings) -> (r: Option<FadeOutInfo>)
    requires
        mono.len() * channels <= usize::MAX,
    ensures
        r == fade_out_spec(mono@, sample_rate as int, channels as int, *settings),
        r matches Some(fo) ==> channels >= 1 ==> fo.duration_samples > 0
            && fo.start_sample + fo.duration_samples <= mono.len() * channels,
{
    let thr = settings.fade_out_threshold_volume;
    let end = find_effective_end(mono, (thr / 2) as u32);
    let rate = sample_rate as u64;
    assert(settings.fade_out_window_size_ms as u64 * rate <= u64::MAX) by (nonlinear_arith)
        requires settings.fade_out_window_size_ms <= u32::MAX, rate <= u32::MAX;
    assert(settings.min_fade_out_duration_ms as u64 * rate <= u64::MAX) by (nonlinear_arith)
        requires settings.min_fade_out_duration_ms <= u32::MAX, rate <= u32::MAX;
    let w64: u64 = settings.fade_out_window_size_ms as u64 * rate / 1000;
    if (end as u64) < 5 * rate || w64 == 0 || w64 >= end as u64 {
        return None;
    }
    let w = w64 as usize;
    let scan_start: usize = if end as u64 >= 60 * rate { end - (60 * rate) as usize } else { 0 };
    let n = (end - scan_start) / w;
    if n < 5 {
        return None;
    }
    let ghost h = energy_history(mono@, end as int, w as int, n as int);
    proof {
        vstd::arithmetic::div_mod::lemma_fundamental_div_mod((end - scan_start) as int, w as int);
        vstd::arithmetic::div_mod::lemma_mod_pos_bound((end - scan_start) as int, w as int);
        assert(n * w == w * n) by (nonlinear_arith);
    }
    let mut history: Vec<u128> = Vec::with_capacity(n);
    let mut j: usize = 0;
    while j < n
        invariant
            w > 0,
            n == (end - scan_start) / (w as int),
            scan_start <= end <= mono.len(),
            n * w <= end - scan_start,
            j <= n,
            forall|k: int| 0 <= k < j ==> history@[k] <= 1073741824 * mono.len(),
            history@.len() == j,
            forall|k: int| 0 <= k < j ==> history@[k] as int == h[k],
            h == energy_history(mono@, end as int, w as int, n as int),
        decreases n - j,
    {
        proof {
            assert((j + 1) * w <= n * w) by (nonlinear_arith) requires j < n, w > 0;
            assert(j * w + w == (j + 1) * w) by (nonlinear_arith);
        }
        let hi = end - j * w;
        let lo = hi - w;
        let (_, e) = block_sums(mono, lo, hi);
        proof {
            crate::signal::lemma_sum_bounds(mono@.subrange(lo as int, hi as int));
            assert(1073741824 * (hi - lo) <= 1073741824 * mono.len()) by (nonlinear_arith)
                requires hi - lo <= mono.len();
            assert(lo == end - (j + 1) * w) by (nonlinear_arith) requires lo == hi - w, hi == end - j * w;
        }
        history.push(e);
        j = j + 1;
    }
    let mut onset: usize = 0;
    let mut i: usize = 0;
    while i < n - 1
        invariant
            n >= 5,
            history@.len() == n,
            h.len() == n,
            forall|k: int| 0 <= k < n ==> history@[k] as int == h[k],
            forall|k: int| 0 <= k < n ==> history@[k] <= 1073741824 * mono.len(),
            mono.len() <= usize::MAX,
            i <= n - 1,
            onset <= i,
            first_drop_from(h, 0) == first_drop_from(h, i as int),
            onset as int == last_rise_below(h, i as int),
        ensures
            onset <= n - 1,
            onset as int == fade_onset(h),
        decreases n - 1 - i,
    {
        let a = history[i];
        let b = history[i + 1];
        proof {
            assert(1073741824 * mono.len() * 101 <= u128::MAX) by (nonlinear_arith)
                requires mono.len() <= usize::MAX, usize::MAX <= u64::MAX;
        }
        if 100 * b > 101 * a {
            onset = i + 1;
        } else if 100 * b < 81 * a {
            break;
        }
        i = i + 1;
    }
    proof {
        assert((onset + 1) * w <= n * w) by (nonlinear_arith) requires onset < n, w > 0;
        assert((onset + 1) * w >= w) by (nonlinear_arith) requires w > 0;
    }
    let start = end - (onset + 1) * w;
    let duration = end - start;
    let min_duration: u64 = settings.min_fade_out_duration_ms as u64 * rate / 1000;
    if (duration as u64) < min_duration {
        return None;
    }
    let onset_energy = history[onset];
    let t = thr as u128;
    let wide_w = w as u128;
    assert(wide_w <= 18446744073709551615u128);
    assert(t * t <= 4294836225) by (nonlinear_arith) requires t <= 65535;
    let tt: u128 = t * t;
    assert(tt * wide_w <= 4294836225 * 18446744073709551615u128) by (nonlinear_arith)
        requires tt <= 4294836225, wide_w <= 18446744073709551615u128;
    let level: u128 = tt * wide_w;
    if onset_energy < level || onset_energy < 4 * history[0] {
        return None;
    }
    assert(start * channels <= mono.len() * channels) by (nonlinear_arith)
        requires start <= mono.len();
    assert(start * channels + duration * channels <= mono.len() * channels) by (nonlinear_arith)
        requires start + duration <= mono.len();
    assert(channels >= 1 ==> duration * channels > 0) by (nonlinear_arith)
        requires duration > 0;
    assert(duration * channels <= mono.len() * channels) by (nonlinear_arith)
        requires duration <= mono.len();
    Some(FadeOutInfo {
        start_sample: start * channels,
        duration_samples: duration * channels,
        confidence: FADE_CONFIDENCE,
    })
}

} // verus!

use vstd::prelude::*;
use crate::{AnalysisResult, AnalysisSettings, DetectionMode, FadeOutInfo, FadeOutMode, LoopPoints};
use crate::signal::{mono_spec, downsample_spec, effective_end_spec, sum_sq, mix_to_mono, downsample, find_effective_end, block_sums};
use crate::fade::{ms_to_samples, fade_out_spec, detect_fade_out};
use crate::coarse::{COARSE_SAMPLE_RATE, MIN_CORRELATION, coarse_lag_spec, find_best_lag};
use crate::ncc::{SCALE, MAX_WINDOW, fine_match_spec, find_best_match_ncc_fine, lemma_fine_scan_offset, lemma_fine_scan_bounded};

verus! {

/// Length of the query window, the end of the track that is searched for earlier on.
pub const QUERY_DURATION_SEC: u32 = 15;

/// Shortest searchable region worth a loop search.
pub const MIN_LOOP_DURATION_SEC: u32 = 10;

/// Magnitude at or below which trailing samples count as silence (about 0.0005 of
/// full scale).
pub const SILENCE_FLOOR: u32 = 16;

/// Half-width of the fine search around the coarse estimate.
pub const REFINE_RADIUS_SEC: u32 = 2;

/// Gap kept between the fine search range and the query itself.
pub const QUERY_GAP: usize = 1000;

/// Confidence above which a louder match is taken as a structural repeat.
pub const BOOST_FLOOR: i32 = 600000;

/// Confidence added for a louder match.
pub const BOOST: i32 = 200000;

/// The region and the coarse signals of a loop search.
#[derive(Debug)]
pub struct LoopSearch {
    /// End of the searchable region, in mono samples.
    pub search_end: usize,
    /// Start of the query window, in mono samples.
    pub query_start: usize,
    /// Downsampling factor of the coarse pass.
    pub factor: usize,
    /// The searchable region, downsampled.
    pub coarse_signal: Vec<i16>,
    /// The query window, downsampled.
    pub coarse_query: Vec<i16>,
}

/// Everything that comes before the coarse correlation: the mono signal, the
/// fade-out, and the loop search if one is to be made.
#[derive(Debug)]
pub struct AnalysisPlan {
    pub mono: Vec<i16>,
    pub fade_out_info: Option<FadeOutInfo>,
    pub search: Option<LoopSearch>,
}

pub open spec fn sat_sub(a: int, b: int) -> int {
    if a >= b { a - b } else { 0 }
}

pub open spec fn min_int(a: int, b: int) -> int {
    if a <= b { a } else { b }
}

/// Downsampling factor that brings `rate` near the coarse rate.
pub open spec fn coarse_factor(rate: int) -> int {
    if rate / (COARSE_SAMPLE_RATE as int) >= 1 { rate / (COARSE_SAMPLE_RATE as int) } else { 1 }
}

/// The fade-out of a run with these settings.
pub open spec fn fade_spec(mono: Seq<i16>, rate: int, channels: int, s: AnalysisSettings) -> Option<FadeOutInfo> {
    if s.fade_out_mode == FadeOutMode::Off { None } else { fade_out_spec(mono, rate, channels, s) }
}

/// End of the region searched for a loop: before the fade-out and its buffer, or
/// before the trailing silence when there is no fade-out.
pub open spec fn search_end_spec(mono: Seq<i16>, rate: int, channels: int, s: AnalysisSettings, fade: Option<FadeOutInfo>) -> int {
    match fade {
        Some(fo) => min_int(
            sat_sub((fo.start_sample as int) / channels, ms_to_samples(s.fade_out_buffer_ms as int, rate)),
            mono.len() as int,
        ),
        None => effective_end_spec(mono, SILENCE_FLOOR as int),
    }
}

/// `(search_end, query_start)` of the loop search, when one is made: the mode asks for
/// it, the region holds the minimum loop length and twice the query, and the query fits
/// the correlation arithmetic.
pub open spec fn loop_window_spec(mono: Seq<i16>, rate: int, channels: int, s: AnalysisSettings, fade: Option<FadeOutInfo>) -> Option<(int, int)> {
    let se = search_end_spec(mono, rate, channels, s, fade);
    let q = QUERY_DURATION_SEC * rate;
    if s.detection_mode == DetectionMode::FadeOutOnly || se < MIN_LOOP_DURATION_SEC * rate || se < 2 * q
        || q == 0 || q > MAX_WINDOW {
        None
    } else {
        Some((se, se - q))
    }
}

impl AnalysisPlan {
    /// The search region lies inside the mono signal and its query fits the
    /// correlation arithmetic.
    pub open spec fn wf(&self, channels: int) -> bool {
        channels >= 1 && self.mono@.len() * channels <= usize::MAX && match self.search {
            Some(ls) => ls.query_start < ls.search_end <= self.mono@.len() && ls.search_end
                - ls.query_start <= MAX_WINDOW && ls.factor >= 1,
            None => true,
        }
    }

    /// Whether the plan can be completed for a signal of `channels` channels.
    pub fn is_well_formed(&self, channels: u16) -> (r: bool)
        ensures
            r == self.wf(channels as int),
    {
        if channels == 0 {
            return false;
        }
        let c = channels as usize;
        if self.mono.len() > usize::MAX / c {
            assert(self.mono@.len() * c > usize::MAX) by (nonlinear_arith)
                requires self.mono@.len() > (usize::MAX as int) / (c as int), c >= 1;
            return false;
        }
        assert(self.mono@.len() * c <= usize::MAX) by (nonlinear_arith)
            requires self.mono@.len() <= (usize::MAX as int) / (c as int), c >= 1;
        match &self.search {
            Some(ls) => ls.query_start < ls.search_end && ls.search_end <= self.mono.len()
                && ls.search_end - ls.query_start <= MAX_WINDOW && ls.factor >= 1,
            None => true,
        }
    }
}

/// Confidence after the volume check: a match louder than the query by more than 1.2 in
/// RMS (1.44 in energy) gains `BOOST` when it is already above `BOOST_FLOOR`, up to 1.0;
/// one quieter than 0.8 in RMS (0.64 in energy) keeps four fifths.
pub open spec fn adjust_confidence_spec(conf: int, match_energy: int, query_energy: int) -> int {
    if 25 * match_energy > 36 * query_energy && conf > BOOST_FLOOR {
        min_int(conf + BOOST, SCALE as int)
    } else if 25 * match_energy < 16 * query_energy {
        conf * 4 / 5
    } else {
        conf
    }
}

/// The loop with its end pulled back before a fade-out that it would run into: to
/// `buffer` samples before the fade's onset, and never to less than one sample past
/// the loop's start.
pub open spec fn reconcile_spec(lp: LoopPoints, fade: Option<FadeOutInfo>, buffer: int) -> LoopPoints {
    match fade {
        Some(fo) => if lp.end_sample > fo.start_sample {
            let cut = sat_sub(fo.start_sample as int, buffer);
            let end = if cut > lp.start_sample + 1 { cut } else { lp.start_sample + 1 };
            LoopPoints { end_sample: end as usize, ..lp }
        } else {
            lp
        },
        None => lp,
    }
}

/// The loop found by a plan, given the convolution of its coarse signal with its
/// reversed coarse query.
pub open spec fn loop_points_spec(plan: AnalysisPlan, rate: int, channels: int, s: AnalysisSettings, conv: Seq<i64>) -> Option<LoopPoints> {
    match plan.search {
        None => None,
        Some(ls) => match coarse_lag_spec(ls.coarse_signal@, ls.coarse_query@, conv) {
            None => None,
            Some(lag) => {
                let est = lag * ls.factor;
                let radius = REFINE_RADIUS_SEC * rate;
                let lo = sat_sub(est, radius);
                let hi = min_int(est + radius, sat_sub(ls.query_start as int, QUERY_GAP as int));
                let query = plan.mono@.subrange(ls.query_start as int, ls.search_end as int);
                let fine = fine_match_spec(query, plan.mono@, lo, hi);
                if hi <= lo || fine.1 < MIN_CORRELATION {
                    None
                } else {
                    let start = lo + fine.0;
                    let conf = adjust_confidence_spec(
                        fine.1,
                        sum_sq(plan.mono@.subrange(start, start + query.len())),
                        sum_sq(query),
                    );
                    Some(reconcile_spec(
                        LoopPoints {
                            start_sample: (start * channels) as usize,
                            end_sample: (ls.search_end * channels) as usize,
                            confidence: conf as i32,
                        },
                        plan.fade_out_info,
                        ms_to_samples(s.fade_out_buffer_ms as int, rate) * channels,
                    ))
                }
            },
        },
    }
}

/// Volume check of a match's confidence.
pub fn adjust_confidence(conf: i32, match_energy: u128, query_energy: u128) -> (r: i32)
    requires
        0 <= conf <= SCALE,
        match_energy <= u128::MAX / 36,
        query_energy <= u128::MAX / 36,
    ensures
        r == adjust_confidence_spec(conf as int, match_energy as int, query_energy as int),
        0 <= r <= SCALE,
{
    if 25 * match_energy > 36 * query_energy && conf > BOOST_FLOOR {
        if conf + BOOST > SCALE { SCALE } else { conf + BOOST }
    } else if 25 * match_energy < 16 * query_energy {
        conf * 4 / 5
    } else {
        conf
    }
}

/// Pulls the loop's end back before a fade-out that it would run into.
pub fn reconcile(lp: LoopPoints, fade: Option<FadeOutInfo>, buffer: usize) -> (r: LoopPoints)
    requires
        lp.start_sample < usize::MAX,
    ensures
        r == reconcile_spec(lp, fade, buffer as int),
        lp.start_sample < lp.end_sample ==> r.start_sample == lp.start_sample && r.start_sample
            < r.end_sample <= lp.end_sample,
{
    match fade {
        Some(fo) => {
            if lp.end_sample > fo.start_sample {
                let cut = if fo.start_sample >= buffer { fo.start_sample - buffer } else { 0 };
                let end = if cut > lp.start_sample + 1 { cut } else { lp.start_sample + 1 };
                LoopPoints { start_sample: lp.start_sample, end_sample: end, confidence: lp.confidence }
            } else {
                lp
            }
        },
        None => lp,
    }
}

/// Copy of `v[a..b]`.
fn copy_range(v: &Vec<i16>, a: usize, b: usize) -> (r: Vec<i16>)
    requires
        a <= b <= v.len(),
    ensures
        r@ == v@.subrange(a as int, b as int),
{
    let mut r: Vec<i16> = Vec::with_capacity(b - a);
    let mut i: usize = a;
    while i < b
        invariant
            a <= i <= b <= v.len(),
            r@ == v@.subrange(a as int, i as int),
        decreases b - i,
    {
        r.push(v[i]);
        i = i + 1;
        assert(r@ =~= v@.subrange(a as int, i as int));
    }
    r
}

/// First stage of an analysis run: downmix, fade-out detection, and the coarse signals
/// of the loop search.
pub fn prepare_analysis(samples: &Vec<i16>, sample_rate: u32, channels: u16, settings: &AnalysisSettings) -> (plan: AnalysisPlan)
    requires
        channels >= 1,
    ensures
        is_prepared(plan, samples@, sample_rate as int, channels as int, *settings),
{
    let total = samples.len();
    let mono = mix_to_mono(samples, channels);
    let ch = channels as usize;
    proof {
        assert(total == samples@.len());
        vstd::arithmetic::div_mod::lemma_fundamental_div_mod(samples@.len() as int, ch as int);
        vstd::arithmetic::div_mod::lemma_mod_pos_bound(samples@.len() as int, ch as int);
        assert(mono@.len() * ch == ch * mono@.len()) by (nonlinear_arith);
    }
    let fade = match settings.fade_out_mode {
        FadeOutMode::Off => None,
        _ => detect_fade_out(&mono, sample_rate, ch, settings),
    };
    let rate = sample_rate as u64;
    let search_end: usize = match fade {
        Some(fo) => {
            assert(settings.fade_out_buffer_ms as u64 * rate <= u64::MAX) by (nonlinear_arith)
                requires settings.fade_out_buffer_ms <= u32::MAX, rate <= u32::MAX;
            let buffer: u64 = settings.fade_out_buffer_ms as u64 * rate / 1000;
            let onset = (fo.start_sample / ch) as u64;
            let cut: u64 = if onset >= buffer { onset - buffer } else { 0 };
            if cut <= mono.len() as u64 { cut as usize } else { mono.len() }
        },
        None => find_effective_end(&mono, SILENCE_FLOOR),
    };
    let q64: u64 = QUERY_DURATION_SEC as u64 * rate;
    let too_short = (search_end as u64) < MIN_LOOP_DURATION_SEC as u64 * rate || (search_end as u64) < 2 * q64;
    let search = match settings.detection_mode {
        DetectionMode::FadeOutOnly => None,
        _ => if too_short || q64 == 0 || q64 > MAX_WINDOW as u64 {
            None
        } else {
            let q = q64 as usize;
            let query_start = search_end - q;
            let by_rate = sample_rate / COARSE_SAMPLE_RATE;
            let factor: usize = if by_rate >= 1 { by_rate as usize } else { 1 };
            let region = copy_range(&mono, 0, search_end);
            let query = copy_range(&mono, query_start, search_end);
            assert(mono@.subrange(0, search_end as int) =~= mono@.take(search_end as int));
            let coarse_signal = downsample(&region, factor);
            let coarse_query = downsample(&query, factor);
            Some(LoopSearch { search_end, query_start, factor, coarse_signal, coarse_query })
        },
    };
    AnalysisPlan { mono, fade_out_info: fade, search }
}

/// Second stage of an analysis run, given the linear convolution of the plan's coarse
/// signal with its reversed coarse query: the coarse lag, the fine match around it,
/// the volume check of its confidence, and the reconciliation with the fade-out.
pub fn complete_analysis(plan: &AnalysisPlan, sample_rate: u32, channels: u16, settings: &AnalysisSettings, conv: &Vec<i64>) -> (r: AnalysisResult)
    requires
        plan.wf(channels as int),
    ensures
        r.fade_out_info == plan.fade_out_info,
        r.loop_points == loop_points_spec(*plan, sample_rate as int, channels as int, *settings, conv@),
        r.loop_points matches Some(lp) ==> lp.start_sample < lp.end_sample <= plan.mono@.len() * channels
            && 0 <= lp.confidence <= SCALE,
{
    let loop_points = find_loop(plan, sample_rate, channels, settings, conv);
    AnalysisResult { loop_points, fade_out_info: plan.fade_out_info }
}

fn find_loop(plan: &AnalysisPlan, sample_rate: u32, channels: u16, settings: &AnalysisSettings, conv: &Vec<i64>) -> (r: Option<LoopPoints>)
    requires
        plan.wf(channels as int),
    ensures
        r == loop_points_spec(*plan, sample_rate as int, channels as int, *settings, conv@),
        r matches Some(lp) ==> lp.start_sample < lp.end_sample <= plan.mono@.len() * channels
            && 0 <= lp.confidence <= SCALE,
{
    let ls = match &plan.search {
        None => return None,
        Some(ls) => ls,
    };
    let lag = match find_best_lag(&ls.coarse_signal, &ls.coarse_query, conv) {
        None => return None,
        Some(lag) => lag,
    };
    let ch = channels as usize;
    assert(lag as u128 * ls.factor as u128 <= 18446744073709551615u128 * 18446744073709551615u128) by (nonlinear_arith)
        requires lag <= u64::MAX, ls.factor <= u64::MAX;
    let est: u128 = lag as u128 * ls.factor as u128;
    let radius: u128 = REFINE_RADIUS_SEC as u128 * sample_rate as u128;
    let lo: u128 = if est >= radius { est - radius } else { 0 };
    let gap: usize = if ls.query_start >= QUERY_GAP { ls.query_start - QUERY_GAP } else { 0 };
    let hi: u128 = if est + radius < gap as u128 { est + radius } else { gap as u128 };
    if hi <= lo {
        return None;
    }
    let lo = lo as usize;
    let hi = hi as usize;
    let query = copy_range(&plan.mono, ls.query_start, ls.search_end);
    let (off, corr) = find_best_match_ncc_fine(&query, &plan.mono, lo, hi);
    if corr < MIN_CORRELATION {
        return None;
    }
    let ghost full = plan.mono@;
    let ghost last = if full.len() >= query@.len() { full.len() - query@.len() } else { 0 };
    let ghost max_off = if hi < last { hi as int } else { last };
    proof {
        lemma_fine_scan_offset(query@, full, lo as int, max_off);
        lemma_fine_scan_bounded(query@, full, lo as int, max_off);
    }
    let start = lo + off;
    let m = query.len();
    let (_, match_energy) = block_sums(&plan.mono, start, start + m);
    let (_, query_energy) = block_sums(&query, 0, m);
    assert(query@.subrange(0, m as int) =~= query@);
    proof {
        crate::signal::lemma_sum_bounds(plan.mono@.subrange(start as int, start + m));
        crate::signal::lemma_sum_bounds(query@);
        assert(1073741824 * m <= u128::MAX / 36) by (nonlinear_arith) requires m <= MAX_WINDOW;
    }
    let confidence = adjust_confidence(corr, match_energy, query_energy);
    assert(settings.fade_out_buffer_ms as u64 * sample_rate as u64 <= u64::MAX) by (nonlinear_arith)
        requires settings.fade_out_buffer_ms <= u32::MAX, sample_rate <= u32::MAX;
    let buffer_mono: u64 = settings.fade_out_buffer_ms as u64 * sample_rate as u64 / 1000;
    assert(buffer_mono as u128 * ch as u128 <= u128::MAX) by (nonlinear_arith)
        requires buffer_mono <= u64::MAX, ch <= u16::MAX;
    let buffer: usize = if buffer_mono as u128 * ch as u128 <= usize::MAX as u128 {
        (buffer_mono as u128 * ch as u128) as usize
    } else {
        usize::MAX
    };
    proof {
        assert(start * ch <= plan.mono@.len() * ch) by (nonlinear_arith) requires start <= plan.mono@.len();
        assert(ls.search_end * ch <= plan.mono@.len() * ch) by (nonlinear_arith)
            requires ls.search_end <= plan.mono@.len();
        assert(start * ch < ls.search_end * ch) by (nonlinear_arith) requires start < ls.search_end, ch >= 1;
    }
    let raw = LoopPoints { start_sample: start * ch, end_sample: ls.search_end * ch, confidence };
    Some(reconcile(raw, plan.fade_out_info, buffer))
}

} // verus!

verus! {

/// Everything `prepare_analysis` promises of its result for these inputs.
pub open spec fn is_prepared(plan: AnalysisPlan, samples: Seq<i16>, rate: int, channels: int, s: AnalysisSettings) -> bool {
    &&& plan.wf(channels)
    &&& plan.mono@ == mono_spec(samples, channels)
    &&& plan.fade_out_info == fade_spec(plan.mono@, rate, channels, s)
    &&& match loop_window_spec(plan.mono@, rate, channels, s, plan.fade_out_info) {
        None => plan.search is None,
        Some(w) => plan.search is Some && ({
            let ls = plan.search->Some_0;
            &&& ls.search_end == w.0
            &&& ls.query_start == w.1
            &&& ls.factor == coarse_factor(rate)
            &&& ls.coarse_signal@ == downsample_spec(plan.mono@.take(w.0), ls.factor as int)
            &&& ls.coarse_query@ == downsample_spec(plan.mono@.subrange(w.1, w.0), ls.factor as int)
        }),
    }
}

/// Two runs on the same samples and settings agree: their plans hold the same values,
/// and with the same convolution they find the same loop and the same fade-out.
pub proof fn lemma_runs_agree(
    first: AnalysisPlan,
    second: AnalysisPlan,
    samples: Seq<i16>,
    rate: int,
    channels: int,
    s: AnalysisSettings,
    conv: Seq<i64>,
)
    requires
        is_prepared(first, samples, rate, channels, s),
        is_prepared(second, samples, rate, channels, s),
    ensures
        first.mono@ == second.mono@,
        first.fade_out_info == second.fade_out_info,
        loop_points_spec(first, rate, channels, s, conv) == loop_points_spec(second, rate, channels, s, conv),
{
}

/// When a loop would run into a detected fade-out, its reconciled end lies strictly
/// before the fade's onset, as long as the buffer is at least one sample and the loop
/// starts more than one sample before the onset.
pub proof fn lemma_loop_ends_before_fade(lp: LoopPoints, fo: FadeOutInfo, buffer: int)
    requires
        lp.end_sample > fo.start_sample,
        buffer >= 1,
        lp.start_sample + 1 < fo.start_sample,
    ensures
        reconcile_spec(lp, Some(fo), buffer).end_sample < fo.start_sample,
        reconcile_spec(lp, Some(fo), buffer).start_sample == lp.start_sample,
        reconcile_spec(lp, Some(fo), buffer).confidence == lp.confidence,
{
}

} // verus!

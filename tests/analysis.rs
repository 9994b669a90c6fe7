use auto_abloop::analysis::{complete_analysis, prepare_analysis, reconcile, adjust_confidence, AnalysisPlan};
use auto_abloop::coarse::{compute_moving_sum_squares, find_best_lag};
use auto_abloop::fade::detect_fade_out;
use auto_abloop::ncc::{find_best_match_ncc_fine, isqrt};
use auto_abloop::signal::{downsample, find_effective_end, mix_to_mono};
use auto_abloop::{AnalysisResult, AnalysisSettings, DetectionMode, FadeOutInfo, FadeOutMode, LoopPoints};
use realfft::num_complex::Complex;
use realfft::RealFftPlanner;

fn to_sample(x: f64) -> i16 {
    (x * 32768.0).round().clamp(-32768.0, 32767.0) as i16
}

/// Linear convolution of `signal` with `query` reversed, rounded to integers.
fn convolve_reversed(signal: &[i16], query: &[i16]) -> Vec<i64> {
    let n = signal.len();
    let m = query.len();
    let len = (n + m).next_power_of_two();
    let mut planner = RealFftPlanner::<f64>::new();
    let r2c = planner.plan_fft_forward(len);
    let c2r = planner.plan_fft_inverse(len);
    let mut a: Vec<f64> = vec![0.0; len];
    for (i, &x) in signal.iter().enumerate() {
        a[i] = x as f64;
    }
    let mut b: Vec<f64> = vec![0.0; len];
    for (i, &x) in query.iter().enumerate() {
        b[m - 1 - i] = x as f64;
    }
    let mut fa = r2c.make_output_vec();
    let mut fb = r2c.make_output_vec();
    r2c.process(&mut a, &mut fa).unwrap();
    r2c.process(&mut b, &mut fb).unwrap();
    for (x, y) in fa.iter_mut().zip(fb.iter()) {
        *x = *x * y;
    }
    let last = fa.len() - 1;
    fa[0] = Complex::new(fa[0].re, 0.0);
    fa[last] = Complex::new(fa[last].re, 0.0);
    let mut out = c2r.make_output_vec();
    c2r.process(&mut fa, &mut out).unwrap();
    out.iter().map(|v| (v / len as f64).round() as i64).collect()
}

fn run(samples: &Vec<i16>, rate: u32, channels: u16, settings: &AnalysisSettings) -> AnalysisResult {
    let plan: AnalysisPlan = prepare_analysis(samples, rate, channels, settings);
    assert!(plan.is_well_formed(channels));
    let conv = match &plan.search {
        Some(ls) => convolve_reversed(&ls.coarse_signal, &ls.coarse_query),
        None => Vec::new(),
    };
    complete_analysis(&plan, rate, channels, settings, &conv)
}

/// A tone whose pitch and loudness drift, so that no two stretches of it are alike.
fn drifting_tone(rate: u32, seconds: u32) -> Vec<f64> {
    let n = (rate * seconds) as usize;
    (0..n)
        .map(|i| {
            let t = i as f64 / rate as f64;
            let phase = 2.0 * std::f64::consts::PI * (110.0 * t + 3.0 * t * t);
            0.5 * phase.sin() * (0.6 + 0.4 * (2.0 * std::f64::consts::PI * 0.13 * t).sin())
        })
        .collect()
}

#[test]
fn downmix_averages_each_frame() {
    let samples: Vec<i16> = vec![100, 300, -1, 0, 7, 8, 5];
    let mono = mix_to_mono(&samples, 2);
    assert_eq!(mono, vec![200, -1, 7]);
    assert_eq!(mono.len(), samples.len() / 2);
    assert_eq!(mix_to_mono(&samples, 2), mono);
}

#[test]
fn downmix_of_one_channel_is_a_copy() {
    let samples: Vec<i16> = vec![1, -2, 3];
    assert_eq!(mix_to_mono(&samples, 1), samples);
}

#[test]
fn downmix_three_channels() {
    let samples: Vec<i16> = vec![32767, 32767, 32767, -32768, -32768, -32767];
    assert_eq!(mix_to_mono(&samples, 3), vec![32767, -32768]);
}

#[test]
fn effective_end_skips_trailing_zeros() {
    let mono: Vec<i16> = vec![5, 100, -200, 3, 0, 0, 0];
    assert_eq!(find_effective_end(&mono, 16), 3);
    assert!(find_effective_end(&mono, 16) <= mono.len() - 3);
}

#[test]
fn effective_end_of_silent_buffer_is_its_length() {
    let mono: Vec<i16> = vec![0; 10];
    assert_eq!(find_effective_end(&mono, 16), 10);
    let empty: Vec<i16> = Vec::new();
    assert_eq!(find_effective_end(&empty, 16), 0);
}

#[test]
fn effective_end_is_strict_about_the_floor() {
    let mono: Vec<i16> = vec![40, -17, 16, -16];
    assert_eq!(find_effective_end(&mono, 16), 2);
}

#[test]
fn downsample_averages_blocks() {
    let data: Vec<i16> = vec![1, 2, 3, 4, 5, 6, 7];
    assert_eq!(downsample(&data, 3), vec![2, 5, 7]);
    assert_eq!(downsample(&data, 1), data);
    let neg: Vec<i16> = vec![-1, 0];
    assert_eq!(downsample(&neg, 2), vec![-1]);
}

#[test]
fn integer_square_root() {
    assert_eq!(isqrt(0), 0);
    assert_eq!(isqrt(15), 3);
    assert_eq!(isqrt(16), 4);
    assert_eq!(isqrt(u128::MAX), 18446744073709551615);
}

#[test]
fn moving_energy_slides() {
    let data: Vec<i16> = vec![1, -2, 3, 0];
    assert_eq!(compute_moving_sum_squares(&data, 2), vec![5, 13, 9]);
}

#[test]
fn ncc_self_match_scores_one() {
    let full: Vec<i16> = (0..200).map(|i| ((i * 37 % 101) as i16 - 50) * 100).collect();
    let query: Vec<i16> = full[60..100].to_vec();
    let (off, score) = find_best_match_ncc_fine(&query, &full, 50, 150);
    assert_eq!(score, 1_000_000);
    assert_eq!(off, 10);
}

#[test]
fn ncc_anti_correlation_scores_minus_one() {
    let query: Vec<i16> = (0..40).map(|i| ((i * 13 % 17) as i16 - 8) * 50).collect();
    let negated: Vec<i16> = query.iter().map(|x| -x).collect();
    let (off, score) = find_best_match_ncc_fine(&query, &negated, 0, 1);
    assert_eq!(off, 0);
    assert_eq!(score, -1_000_000);
}

#[test]
fn ncc_flat_query_gives_zero() {
    let query: Vec<i16> = vec![7; 10];
    let full: Vec<i16> = (0..50).map(|i| i as i16).collect();
    assert_eq!(find_best_match_ncc_fine(&query, &full, 0, 30), (0, 0));
}

#[test]
fn coarse_lag_finds_the_copy() {
    let mut state: u32 = 12345;
    let signal: Vec<i16> = (0..1000)
        .map(|_| {
            state ^= state << 13;
            state ^= state >> 17;
            state ^= state << 5;
            (state >> 16) as i16
        })
        .collect();
    let query: Vec<i16> = signal[300..400].to_vec();
    let conv = convolve_reversed(&signal, &query);
    assert_eq!(find_best_lag(&signal, &query, &conv), Some(300));
}

#[test]
fn coarse_lag_rejects_silence() {
    let signal: Vec<i16> = vec![0; 500];
    let query: Vec<i16> = (0..50).map(|i| i as i16).collect();
    let conv = convolve_reversed(&signal, &query);
    assert_eq!(find_best_lag(&signal, &query, &conv), None);
    assert_eq!(find_best_lag(&query, &signal, &conv), None);
}

#[test]
fn confidence_volume_check() {
    assert_eq!(adjust_confidence(700_000, 200, 100), 900_000);
    assert_eq!(adjust_confidence(900_000, 200, 100), 1_000_000);
    assert_eq!(adjust_confidence(500_000, 200, 100), 500_000);
    assert_eq!(adjust_confidence(500_000, 50, 100), 400_000);
    assert_eq!(adjust_confidence(500_000, 100, 100), 500_000);
}

#[test]
fn reconcile_pulls_the_end_before_the_fade() {
    let lp = LoopPoints { start_sample: 1000, end_sample: 9000, confidence: 950_000 };
    let fo = FadeOutInfo { start_sample: 8000, duration_samples: 2000, confidence: 800_000 };
    let r = reconcile(lp, Some(fo), 200);
    assert_eq!(r.end_sample, 7800);
    assert!(r.end_sample < fo.start_sample);
    assert_eq!(r.start_sample, 1000);
    assert_eq!(r.confidence, 950_000);
    let short = LoopPoints { start_sample: 7900, end_sample: 9000, confidence: 1 };
    assert_eq!(reconcile(short, Some(fo), 200).end_sample, 7901);
    assert_eq!(reconcile(lp, None, 200), lp);
    let before = LoopPoints { start_sample: 1000, end_sample: 8000, confidence: 1 };
    assert_eq!(reconcile(before, Some(fo), 200), before);
}

fn fade_tone(rate: u32, channels: u16) -> Vec<i16> {
    let n = (rate * 20) as usize;
    let fade_from = (rate * 17) as usize;
    let mut out = Vec::new();
    for i in 0..n {
        let t = i as f64 / rate as f64;
        let gain = if i < fade_from { 1.0 } else { (n - i) as f64 / (n - fade_from) as f64 };
        let x = to_sample(0.9 * gain * (2.0 * std::f64::consts::PI * 440.0 * t).sin());
        for _ in 0..channels {
            out.push(x);
        }
    }
    out
}

fn fade_settings() -> AnalysisSettings {
    AnalysisSettings { fade_out_threshold_volume: 328, ..AnalysisSettings::default() }
}

#[test]
fn fade_out_of_a_ramped_tone() {
    let rate: u32 = 8000;
    let mono = fade_tone(rate, 1);
    let info = detect_fade_out(&mono, rate, 1, &fade_settings()).expect("fade-out");
    let window = (rate / 20) as i64;
    assert!((info.duration_samples as i64 - 3 * rate as i64).abs() <= window);
    assert!((info.start_sample as i64 - 17 * rate as i64).abs() <= window);
    assert_eq!(info.confidence, 800_000);
}

#[test]
fn fade_out_counts_interleaved_samples() {
    let rate: u32 = 8000;
    let samples = fade_tone(rate, 2);
    let settings = AnalysisSettings { detection_mode: DetectionMode::FadeOutOnly, ..fade_settings() };
    let result = run(&samples, rate, 2, &settings);
    let info = result.fade_out_info.expect("fade-out");
    let window = (rate / 20 * 2) as i64;
    assert!((info.duration_samples as i64 - 6 * rate as i64).abs() <= window);
    assert!((info.start_sample as i64 - 34 * rate as i64).abs() <= window);
    assert!(result.loop_points.is_none());
}

#[test]
fn no_fade_out_in_a_steady_tone() {
    let rate: u32 = 8000;
    let mono: Vec<i16> = (0..rate * 20)
        .map(|i| to_sample(0.5 * (2.0 * std::f64::consts::PI * 440.0 * i as f64 / rate as f64).sin()))
        .collect();
    assert_eq!(detect_fade_out(&mono, rate, 1, &fade_settings()), None);
}

#[test]
fn no_fade_out_in_a_short_track() {
    let rate: u32 = 8000;
    let mono: Vec<i16> = vec![10000; (rate * 4) as usize];
    assert_eq!(detect_fade_out(&mono, rate, 1, &AnalysisSettings::default()), None);
}

#[test]
fn fade_out_mode_off_skips_detection() {
    let rate: u32 = 8000;
    let samples = fade_tone(rate, 1);
    let settings = AnalysisSettings { fade_out_mode: FadeOutMode::Off, ..fade_settings() };
    assert_eq!(run(&samples, rate, 1, &settings).fade_out_info, None);
}

/// Thirty seconds whose last fifteen repeat seconds five to twenty.
fn looped_track(rate: u32, channels: u16) -> Vec<i16> {
    let mut x = drifting_tone(rate, 30);
    let shift = (10 * rate) as usize;
    for i in (15 * rate) as usize..x.len() {
        x[i] = x[i - shift];
    }
    let mut out = Vec::new();
    for v in x {
        for _ in 0..channels {
            out.push(to_sample(v));
        }
    }
    out
}

#[test]
fn loop_found_in_a_repeated_tone() {
    let rate: u32 = 1000;
    let samples = looped_track(rate, 2);
    let settings = AnalysisSettings { fade_out_mode: FadeOutMode::Off, ..AnalysisSettings::default() };
    let result = run(&samples, rate, 2, &settings);
    let lp = result.loop_points.expect("loop");
    assert_eq!(lp.start_sample, 5 * rate as usize * 2);
    assert_eq!(lp.end_sample, 30 * rate as usize * 2);
    assert!(lp.confidence > 900_000);
}

#[test]
fn analysis_is_repeatable() {
    let rate: u32 = 1000;
    let samples = looped_track(rate, 1);
    let settings = AnalysisSettings::default();
    let first = run(&samples, rate, 1, &settings);
    let second = run(&samples, rate, 1, &settings);
    assert_eq!(first, second);
    assert!(first.loop_points.is_some());
}

#[test]
fn short_track_has_no_loop() {
    let rate: u32 = 1000;
    let samples: Vec<i16> = drifting_tone(rate, 20).into_iter().map(to_sample).collect();
    let result = run(&samples, rate, 1, &AnalysisSettings::default());
    assert_eq!(result.loop_points, None);
}

#[test]
fn silent_track_has_nothing() {
    let rate: u32 = 1000;
    let samples: Vec<i16> = vec![0; 40_000];
    let result = run(&samples, rate, 1, &AnalysisSettings::default());
    assert_eq!(result, AnalysisResult { loop_points: None, fade_out_info: None });
}

#[test]
fn default_settings() {
    let s = AnalysisSettings::default();
    assert_eq!(s.detection_mode, DetectionMode::Auto);
    assert_eq!(s.fade_out_mode, FadeOutMode::Auto);
    assert_eq!(s.fade_out_threshold_volume, 3277);
    assert_eq!(s.fade_out_window_size_ms, 50);
    assert_eq!(s.min_fade_out_duration_ms, 1000);
    assert_eq!(s.fade_out_buffer_ms, 100);
}

// Loop-point and fade-out analysis of a decoded audio track.
//
// Samples are 16-bit fixed point (full scale 32768), so that every step of the
// analysis is exact integer arithmetic: RMS levels are compared through window
// energies, and correlations and confidences are integers in millionths. The
// frequency-domain convolution of the coarse search is the one floating-point step;
// its result is handed to `analysis::complete_analysis`.
use vstd::prelude::*;

pub mod signal;
pub mod ncc;
pub mod fade;
pub mod coarse;
pub mod analysis;
pub mod i18n;
pub mod player;

verus! {

/// A loop found in a track, in interleaved sample indices: playback runs to
/// `end_sample` and jumps back to `start_sample`. `confidence` is in millionths.
#[derive(Clone, Copy, Debug, PartialEq, Eq, Structural)]
pub struct LoopPoints {
    pub start_sample: usize,
    pub end_sample: usize,
    pub confidence: i32,
}

/// A fade-out at the end of a track, in interleaved sample indices.
/// `confidence` is in millionths.
#[derive(Clone, Copy, Debug, PartialEq, Eq, Structural)]
pub struct FadeOutInfo {
    pub start_sample: usize,
    pub duration_samples: usize,
    pub confidence: i32,
}

/// Which detections a run performs.
#[derive(Clone, Copy, Debug, PartialEq, Eq, Structural)]
pub enum DetectionMode {
    Auto,
    LoopOnly,
    FadeOutOnly,
}

/// Whether a run looks for a fade-out.
#[derive(Clone, Copy, Debug, PartialEq, Eq, Structural)]
pub enum FadeOutMode {
    Auto,
    Off,
    Only,
}

/// Configuration of one analysis run. Volumes are in sample units, where full
/// scale is 32768.
#[derive(Clone, Copy, Debug, PartialEq, Eq, Structural)]
pub struct AnalysisSettings {
    pub detection_mode: DetectionMode,
    pub fade_out_mode: FadeOutMode,
    pub fade_out_threshold_volume: u16,
    pub fade_out_window_size_ms: u32,
    pub min_fade_out_duration_ms: u32,
    pub fade_out_buffer_ms: u32,
}

impl Default for AnalysisSettings {
    fn default() -> (r: Self)
        ensures
            r.detection_mode == DetectionMode::Auto,
            r.fade_out_mode == FadeOutMode::Auto,
            r.fade_out_threshold_volume == 3277,
            r.fade_out_window_size_ms == 50,
            r.min_fade_out_duration_ms == 1000,
            r.fade_out_buffer_ms == 100,
    {
        AnalysisSettings {
            detection_mode: DetectionMode::Auto,
            fade_out_mode: FadeOutMode::Auto,
            fade_out_threshold_volume: 3277,
            fade_out_window_size_ms: 50,
            min_fade_out_duration_ms: 1000,
            fade_out_buffer_ms: 100,
        }
    }
}

/// What one analysis run found.
#[derive(Clone, Copy, Debug, PartialEq, Eq, Structural)]
pub struct AnalysisResult {
    pub loop_points: Option<LoopPoints>,
    pub fade_out_info: Option<FadeOutInfo>,
}

} // verus!

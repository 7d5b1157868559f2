//! Configuration of an analysis run, and the steps of the pipeline that
//! depend on it.
use vstd::prelude::*;

use crate::detector::{detect_note_switches, initial_state, run, FrameDetection, NoteEvent};
use crate::frames::{frame_starts, num_frames};
use crate::spectrum::{is_bass_peak, pick_peak_bin};

verus! {

/// Why a configuration was refused.
#[derive(Clone, Copy, Debug, PartialEq, Eq, Structural)]
pub enum ConfigError {
    /// No transform can be planned for a window of zero samples.
    ZeroWindow,
    /// The overlap divisor is neither 2 nor 4.
    UnsupportedOverlap,
    /// The window is shorter than the overlap divisor, so the hop would be zero.
    ZeroHop,
    /// A switch must be confirmed by at least one detection.
    ZeroDebounce,
}

/// The tunables of an analysis run.
#[derive(Clone, Copy, Debug)]
pub struct AnalyzerConfig {
    /// Samples per frame (the transform length).
    pub window_size: usize,
    /// Frames start `window_size / overlap_divisor` samples apart.
    pub overlap_divisor: usize,
    /// Only bins strictly below this frequency (Hz) are bass candidates.
    pub cutoff_hz: u32,
    /// Detections in a row that confirm a switch.
    pub debounce_frames: usize,
}

impl AnalyzerConfig {
    /// Well-formedness: a plannable window, a supported overlap, a positive
    /// hop and a positive debounce run.
    pub open spec fn wf(&self) -> bool {
        &&& self.window_size >= 1
        &&& (self.overlap_divisor == 2 || self.overlap_divisor == 4)
        &&& self.window_size / self.overlap_divisor >= 1
        &&& self.debounce_frames >= 1
    }

    /// Distance in samples between the starts of consecutive frames.
    pub open spec fn spec_hop_size(&self) -> int {
        self.window_size as int / self.overlap_divisor as int
    }

    /// Checks the tunables; the first failing check, in the order of the
    /// variants of `ConfigError`, is reported.
    pub fn new(window_size: usize, overlap_divisor: usize, cutoff_hz: u32, debounce_frames: usize) -> (r: Result<
        AnalyzerConfig,
        ConfigError,
    >)
        ensures
            window_size == 0 ==> r == Err::<AnalyzerConfig, ConfigError>(ConfigError::ZeroWindow),
            window_size > 0 && overlap_divisor != 2 && overlap_divisor != 4
                ==> r == Err::<AnalyzerConfig, ConfigError>(ConfigError::UnsupportedOverlap),
            window_size > 0 && (overlap_divisor == 2 || overlap_divisor == 4) && window_size < overlap_divisor
                ==> r == Err::<AnalyzerConfig, ConfigError>(ConfigError::ZeroHop),
            window_size >= overlap_divisor && (overlap_divisor == 2 || overlap_divisor == 4) && debounce_frames == 0
                ==> r == Err::<AnalyzerConfig, ConfigError>(ConfigError::ZeroDebounce),
            r is Ok <==> (window_size >= overlap_divisor && (overlap_divisor == 2 || overlap_divisor == 4)
                && debounce_frames >= 1),
            r matches Ok(c) ==> c.wf() && c.window_size == window_size && c.overlap_divisor == overlap_divisor
                && c.cutoff_hz == cutoff_hz && c.debounce_frames == debounce_frames,
    {
        if window_size == 0 {
            Err(ConfigError::ZeroWindow)
        } else if overlap_divisor != 2 && overlap_divisor != 4 {
            Err(ConfigError::UnsupportedOverlap)
        } else if window_size < overlap_divisor {
            Err(ConfigError::ZeroHop)
        } else if debounce_frames == 0 {
            Err(ConfigError::ZeroDebounce)
        } else {
            Ok(AnalyzerConfig { window_size, overlap_divisor, cutoff_hz, debounce_frames })
        }
    }

    /// Distance in samples between the starts of consecutive frames.
    pub fn hop_size(&self) -> (r: usize)
        requires
            self.wf(),
        ensures
            r == self.spec_hop_size(),
            r >= 1,
    {
        self.window_size / self.overlap_divisor
    }

    /// Start positions of the frames analyzed in a buffer of `buffer_len`
    /// samples.
    pub fn frame_positions(&self, buffer_len: usize) -> (r: Vec<usize>)
        requires
            self.wf(),
        ensures
            r@.len() == num_frames(buffer_len as int, self.window_size as int, self.spec_hop_size()),
            forall|t: int| 0 <= t < r@.len() ==> r@[t] == t * self.spec_hop_size(),
            forall|t: int| 0 <= t < r@.len() ==> r@[t] + self.window_size < buffer_len,
    {
        frame_starts(buffer_len, self.window_size, self.hop_size())
    }

    /// The bass peak bin of one frame's magnitude keys (see `pick_peak_bin`),
    /// with this configuration's window and cutoff.
    pub fn bass_peak_bin(&self, magnitudes: &Vec<u32>, sample_rate: u32) -> (r: Option<usize>)
        requires
            sample_rate > 0,
        ensures
            is_bass_peak(magnitudes@, sample_rate as int, self.window_size as int, self.cutoff_hz as int, r),
    {
        pick_peak_bin(magnitudes, sample_rate, self.window_size, self.cutoff_hz)
    }

    /// The confirmed switches over the detections of successive frames.
    pub fn note_switches(&self, detections: &Vec<Option<FrameDetection>>) -> (r: Vec<NoteEvent>)
        requires
            self.wf(),
        ensures
            r@.map_values(|e: NoteEvent| e@) == run(initial_state(self.debounce_frames as nat), detections@).events,
    {
        detect_note_switches(detections, self.debounce_frames)
    }
}

/// A buffer exactly one window long holds no frame to analyze (a frame needs
/// a sample after it), so the detector sees no detection and emits nothing.
pub proof fn lemma_one_window_buffer_is_silent(window_size: int, hop_size: int, capacity: nat)
    ensures
        num_frames(window_size, window_size, hop_size) == 0,
        run(initial_state(capacity), Seq::<Option<FrameDetection>>::empty()).events.len() == 0,
{
}

} // verus!

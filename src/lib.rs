//! Bass note-switch detection over a mono waveform.
//!
//! The library holds the decisions of the analysis: which frames are
//! scanned, which spectral bin is the bass peak, how a MIDI number is
//! named, and the debounce state machine that turns per-frame detections
//! into a sequence of confirmed note switches.
use vstd::prelude::*;

pub mod midi;
pub mod frames;
pub mod spectrum;
pub mod detector;
pub mod pipeline;

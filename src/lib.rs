//! Real-time decoder for Slow-Scan Television (SSTV) audio.
//!
//! The library takes instantaneous-frequency samples, in millihertz, and runs
//! them through a smoothing chain, tonal pulse detectors and a decoder state
//! machine that locks onto the leader tone, the VIS code and the scanlines of
//! a transmission, assembling an RGB image row by row.
//!
//! - `framer`: groups audio samples into frames for the demodulator;
//! - `filters`: the low-pass and moving-average smoothing chain;
//! - `ring`: the fixed-capacity rings the filters and detectors keep;
//! - `pulse`: windowed-majority tone detectors;
//! - `image`: renders scanlines into the image;
//! - `modes`: the mode table (VIS codes, names, resolutions);
//! - `decode`: the state machine and its events;
//! - `gallery`: paging through stored images.
use vstd::prelude::*;

pub mod modes;
pub mod ring;
pub mod filters;
pub mod pulse;
pub mod image;
pub mod decode;
pub mod framer;
pub mod gallery;

verus! {

} // verus!

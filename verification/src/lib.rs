//! A frame-based spectral filtering engine in fixed-point arithmetic.
//!
//! The engine chunks a PCM signal into frames of `FRAME_SIZE` samples,
//! tapers each frame with a raised-cosine analysis window, transforms it
//! to the frequency domain, attenuates each bin by a clamped gain mask,
//! transforms back, and emits the reconstructed samples clipped to the
//! PCM range. All sample, window and gain values are Q15 fixed-point
//! integers, so every arithmetic step has an exact contract.

use vstd::prelude::*;

pub mod filter;
pub mod laws;
pub mod pipeline;
pub mod spectral;
pub mod trig;
pub mod window;

verus! {

/// Number of time-domain samples per frame, and of frequency bins.
pub const FRAME_SIZE: usize = 256;

/// The Q15 fixed-point representation of 1.0.
pub const Q15_ONE: i64 = 32768;

/// Phase units per full turn of the circle (Q16 of a turn).
pub const TURN: i64 = 65536;

/// Phase units per half turn.
pub const HALF_TURN: i64 = 32768;

/// Phase units per quarter turn.
pub const QUARTER_TURN: i64 = 16384;

} // verus!

//! A low-frequency-oscillator (LFO) amplitude modulator for multi-channel
//! audio, built entirely on fixed-point integer arithmetic so that every part
//! of the per-sample processing path can be specified and verified.
//!
//! Conventions used throughout the crate:
//! - Angles are measured in *ticks*: one full oscillator cycle is `CYCLE`
//!   ticks, so a phase value always lies in `[0, CYCLE)`.
//! - Unit-interval quantities (gains, sine samples, multipliers) are Q16
//!   fixed point: the value `UNIT` stands for 1.0.
//! - Modulation depth is stored in centidecibels (hundredths of a decibel),
//!   from `-6000` (-60 dB) up to `0` (0 dB, unity gain).
//! - Audio samples are plain `i32` values in whatever scale the caller uses;
//!   the engine only ever multiplies them by a Q16 factor in `[0, UNIT]`.

use vstd::prelude::*;

pub mod engine;
pub mod gain;
pub mod params;
pub mod phase;
pub mod smoother;

verus! {

/// Q16 fixed-point representation of 1.0, shared by gains, sine samples and
/// the per-sample multiplier.
pub const UNIT: u32 = 65536;

/// Ticks in one full oscillator cycle (2^24); a phase is always in
/// `[0, CYCLE)`.
pub const CYCLE: u32 = 16777216;

/// Ticks in half a cycle (`CYCLE / 2`).
pub const HALF_CYCLE: u32 = 8388608;

} // verus!

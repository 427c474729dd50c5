//! The two user-facing modulation parameters.
//!
//! - `frequency`: linear range `[0, FREQ_MAX_CENTI]` hundredths of the
//!   oscillator-rate unit; read once per block and applied immediately, so
//!   frequency changes take effect at block boundaries.
//! - `gain_mod` (depth): stored in centidecibels in `[-6000, 0]`, smoothed
//!   logarithmically with a 50 ms time constant. A normalized value of zero
//!   (the knob at its -60 dB minimum) is the bypass position.

use vstd::prelude::*;

use crate::gain::DB_MIN_CENTI;
use crate::smoother::{Smoother, SMOOTHING_DIVISOR};

verus! {

/// Upper bound of the frequency control in hundredths of its unit (100.00).
pub const FREQ_MAX_CENTI: u32 = 10000;

/// The oscillator-rate control, linear over `[0, FREQ_MAX_CENTI]`.
pub struct FreqParam {
    /// Current value in hundredths of the frequency unit.
    pub value_centi: u32,
}

impl FreqParam {
    /// A frequency value within the declared linear range.
    pub open spec fn wf(self) -> bool {
        self.value_centi <= FREQ_MAX_CENTI
    }

    /// Reads the current value; frequency is not smoothed per sample, so
    /// this is also the next smoothed value at a block boundary.
    pub fn value(&self) -> (v: u32)
        ensures
            v == self.value_centi,
    {
        self.value_centi
    }

    /// Sets the control to a value within its range.
    pub fn set_value(&mut self, value_centi: u32)
        requires
            value_centi <= FREQ_MAX_CENTI,
        ensures
            final(self).value_centi == value_centi,
            final(self).wf(),
    {
        self.value_centi = value_centi;
    }
}

impl Default for FreqParam {
    /// The control starts at 0.
    fn default() -> (p: FreqParam)
        ensures
            p.value_centi == 0,
            p.wf(),
    {
        FreqParam { value_centi: 0 }
    }
}

/// The modulation-depth control, in centidecibels with logarithmic
/// smoothing.
pub struct DepthParam {
    /// Smoothing state; its target is the parameter's current plain value.
    pub smoother: Smoother,
}

impl DepthParam {
    /// A well-formed depth parameter is a well-formed smoother.
    pub open spec fn wf(self) -> bool {
        self.smoother.wf()
    }

    /// Whether the parameter's normalized value is exactly zero, i.e. the
    /// control sits on its -60 dB minimum. This is the engine's bypass test,
    /// made on the unsmoothed value so that silence is instantaneous.
    pub open spec fn normalized_is_zero(self) -> bool {
        self.smoother.target == DB_MIN_CENTI
    }

    /// Tests whether the normalized value is exactly zero.
    pub fn normalized_value_is_zero(&self) -> (r: bool)
        ensures
            r == self.normalized_is_zero(),
    {
        self.smoother.target == DB_MIN_CENTI
    }

    /// Schedules a new depth target in centidecibels, smoothed over 50 ms at
    /// the given sample rate. A new target does not move the in-flight
    /// smoothed value: it only re-arms the smoother, except when the target
    /// already equals the current value or the sample rate cannot fit a
    /// single smoothing step.
    pub fn set_value(&mut self, sample_rate: u32, cdb: i32)
        requires
            old(self).wf(),
            DB_MIN_CENTI <= cdb <= 0,
        ensures
            final(self).wf(),
            final(self).smoother.target == cdb,
            final(self).smoother.steps_left == if sample_rate / SMOOTHING_DIVISOR == 0 || cdb
                == old(self).smoother.current {
                0u32
            } else {
                sample_rate / SMOOTHING_DIVISOR
            },
            final(self).smoother.current == if sample_rate / SMOOTHING_DIVISOR == 0 || cdb
                == old(self).smoother.current {
                cdb
            } else {
                old(self).smoother.current
            },
    {
        self.smoother.set_target(sample_rate, cdb);
    }

    /// Snaps the smoothed value to the target, as a host does before
    /// processing starts.
    pub fn reset(&mut self)
        requires
            old(self).wf(),
        ensures
            final(self).wf(),
            final(self).smoother.current == old(self).smoother.target,
            final(self).smoother.target == old(self).smoother.target,
            final(self).smoother.steps_left == 0,
    {
        self.smoother.reset();
    }
}

impl Default for DepthParam {
    /// The control starts at its -60 dB minimum, the bypass position.
    fn default() -> (p: DepthParam)
        ensures
            p.wf(),
            p.normalized_is_zero(),
            p.smoother.current == DB_MIN_CENTI,
            p.smoother.steps_left == 0,
    {
        DepthParam { smoother: Smoother::resting(DB_MIN_CENTI) }
    }
}

/// The processor's parameter set.
pub struct PlugParams {
    /// Oscillator-rate control.
    pub frequency: FreqParam,
    /// Modulation-depth control.
    pub gain_mod: DepthParam,
}

impl PlugParams {
    /// Both parameters are well formed.
    pub open spec fn wf(self) -> bool {
        self.frequency.wf() && self.gain_mod.wf()
    }
}

impl Default for PlugParams {
    /// Frequency 0, depth at its -60 dB bypass minimum.
    fn default() -> (p: PlugParams)
        ensures
            p.wf(),
            p.frequency.value_centi == 0,
            p.gain_mod.normalized_is_zero(),
            p.gain_mod.smoother.current == DB_MIN_CENTI,
            p.gain_mod.smoother.steps_left == 0,
    {
        PlugParams { frequency: FreqParam::default(), gain_mod: DepthParam::default() }
    }
}

} // verus!

//! A parameter smoother: turns a stepwise target value into a per-sample
//! sequence that converges toward the target without discontinuity.
//!
//! The stepper is linear in the value it stores. The depth parameter stores
//! centidecibels, so for depth this realizes logarithmic smoothing of the
//! linear gain: every sample moves the gain by an equal ratio, which is what
//! a decibel display perceives as an even transition.
//!
//! A target change arms the smoother with one step per sample of the 50 ms
//! time constant; each `next` call then moves the value toward the target by
//! the remaining distance divided by the remaining steps, landing exactly on
//! the target on the last armed step and staying there afterwards.

use vstd::prelude::*;

use crate::gain::{gain_of_cdb, lemma_gain_of_cdb_monotone, DB_MIN_CENTI};

verus! {

/// Samples of smoothing per hertz of sample rate: the 50 ms time constant
/// means `sample_rate / SMOOTHING_DIVISOR` steps.
pub const SMOOTHING_DIVISOR: u32 = 20;

/// Smoothing state for one parameter, in centidecibels.
pub struct Smoother {
    /// The value most recently handed out.
    pub current: i32,
    /// The destination value.
    pub target: i32,
    /// Samples left before `current` reaches `target`.
    pub steps_left: u32,
}

impl Smoother {
    /// Well-formed smoothing state: both values within the depth range, and
    /// a smoother at rest sits exactly on its target.
    pub open spec fn wf(self) -> bool {
        &&& DB_MIN_CENTI <= self.current <= 0
        &&& DB_MIN_CENTI <= self.target <= 0
        &&& self.steps_left == 0 ==> self.current == self.target
    }

    /// The state one `next` call later: at rest nothing moves; on the last
    /// armed step the value lands exactly on the target; otherwise it moves
    /// by the remaining distance divided by the remaining steps.
    pub open spec fn step_spec(self) -> Smoother {
        if self.steps_left == 0 {
            self
        } else if self.steps_left == 1 {
            Smoother { current: self.target, target: self.target, steps_left: 0 }
        } else if self.target >= self.current {
            Smoother {
                current: (self.current + (self.target - self.current) / (self.steps_left as int)) as i32,
                target: self.target,
                steps_left: (self.steps_left - 1) as u32,
            }
        } else {
            Smoother {
                current: (self.current - (self.current - self.target) / (self.steps_left as int)) as i32,
                target: self.target,
                steps_left: (self.steps_left - 1) as u32,
            }
        }
    }

    /// The state after `k` consecutive `next` calls.
    pub open spec fn stepped(self, k: nat) -> Smoother
        decreases k,
    {
        if k == 0 {
            self
        } else {
            self.stepped((k - 1) as nat).step_spec()
        }
    }

    /// One step keeps the state well formed, keeps the target, never moves
    /// the value past the target, and uses up one armed step.
    pub proof fn lemma_step_spec_props(self)
        requires
            self.wf(),
        ensures
            self.step_spec().wf(),
            self.step_spec().target == self.target,
            self.target >= self.current ==> self.current <= self.step_spec().current <= self.target,
            self.target <= self.current ==> self.target <= self.step_spec().current <= self.current,
            self.step_spec().steps_left == if self.steps_left == 0 { 0int } else { self.steps_left - 1 },
    {
        if self.steps_left > 1 {
            if self.target >= self.current {
                let d = self.target - self.current;
                assert(0 <= d / (self.steps_left as int) <= d) by (nonlinear_arith)
                    requires
                        0 <= d,
                        self.steps_left >= 1,
                ;
            } else {
                let d = self.current - self.target;
                assert(0 <= d / (self.steps_left as int) <= d) by (nonlinear_arith)
                    requires
                        0 <= d,
                        self.steps_left >= 1,
                ;
            }
        }
    }

    /// Law: smoothing is monotonic. Between any two instants of a run of
    /// `next` calls the value has moved toward the target and never past it:
    /// rising runs never overshoot upward, falling runs never overshoot
    /// downward.
    pub proof fn lemma_monotonic(self, i: nat, j: nat)
        requires
            self.wf(),
            i <= j,
        ensures
            self.target >= self.current ==> self.current <= self.stepped(i).current
                <= self.stepped(j).current <= self.target,
            self.target <= self.current ==> self.target <= self.stepped(j).current
                <= self.stepped(i).current <= self.current,
            self.stepped(j).wf(),
            self.stepped(j).target == self.target,
        decreases j,
    {
        if j == 0 {
        } else if i == j {
            self.lemma_monotonic(0, (j - 1) as nat);
            self.stepped((j - 1) as nat).lemma_step_spec_props();
        } else {
            self.lemma_monotonic(i, (j - 1) as nat);
            self.stepped((j - 1) as nat).lemma_step_spec_props();
        }
    }

    /// Law: smoothing is monotonic in the gain domain too. Since the
    /// depth-to-gain conversion is monotone, the per-sample linear gains a
    /// run of `next` calls produces move monotonically from the current
    /// value's gain toward the target's gain and never past it.
    pub proof fn lemma_gain_monotonic(self, i: nat, j: nat)
        requires
            self.wf(),
            i <= j,
        ensures
            self.target >= self.current ==> gain_of_cdb(self.current as int) <= gain_of_cdb(
                self.stepped(i).current as int,
            ) <= gain_of_cdb(self.stepped(j).current as int) <= gain_of_cdb(self.target as int),
            self.target <= self.current ==> gain_of_cdb(self.target as int) <= gain_of_cdb(
                self.stepped(j).current as int,
            ) <= gain_of_cdb(self.stepped(i).current as int) <= gain_of_cdb(self.current as int),
    {
        self.lemma_monotonic(i, j);
        if self.target >= self.current {
            lemma_gain_of_cdb_monotone(self.current as int, self.stepped(i).current as int);
            lemma_gain_of_cdb_monotone(self.stepped(i).current as int, self.stepped(j).current as int);
            lemma_gain_of_cdb_monotone(self.stepped(j).current as int, self.target as int);
        } else {
            lemma_gain_of_cdb_monotone(self.target as int, self.stepped(j).current as int);
            lemma_gain_of_cdb_monotone(self.stepped(j).current as int, self.stepped(i).current as int);
            lemma_gain_of_cdb_monotone(self.stepped(i).current as int, self.current as int);
        }
    }

    /// Law: smoothing converges. After at most `steps_left` further calls --
    /// the number the 50 ms time constant armed -- the value sits exactly on
    /// the target, and stays there.
    pub proof fn lemma_converges(self, k: nat)
        requires
            self.wf(),
            k >= self.steps_left,
        ensures
            self.stepped(k).current == self.target,
            self.stepped(k).target == self.target,
        decreases k,
    {
        if k == 0 {
        } else {
            self.lemma_monotonic(0, (k - 1) as nat);
            let prev = self.stepped((k - 1) as nat);
            prev.lemma_step_spec_props();
            if k - 1 >= self.steps_left {
                self.lemma_converges((k - 1) as nat);
            } else {
                self.lemma_steps_left_decreases((k - 1) as nat);
            }
        }
    }

    /// After `k` calls at most `steps_left - k` armed steps remain.
    pub proof fn lemma_steps_left_decreases(self, k: nat)
        requires
            self.wf(),
        ensures
            self.stepped(k).steps_left <= if k >= self.steps_left {
                0int
            } else {
                self.steps_left - k
            },
        decreases k,
    {
        if k > 0 {
            self.lemma_steps_left_decreases((k - 1) as nat);
            self.lemma_monotonic(0, (k - 1) as nat);
            self.stepped((k - 1) as nat).lemma_step_spec_props();
        }
    }

    /// A smoother at rest on a value.
    pub fn resting(value: i32) -> (s: Smoother)
        requires
            DB_MIN_CENTI <= value <= 0,
        ensures
            s.wf(),
            s.current == value,
            s.target == value,
            s.steps_left == 0,
    {
        Smoother { current: value, target: value, steps_left: 0 }
    }

    /// Records a new destination value, arming one smoothing step per sample
    /// of the 50 ms time constant at the given sample rate. A target equal
    /// to the current value, or a sample rate too low to fit a single step,
    /// takes effect immediately.
    pub fn set_target(&mut self, sample_rate: u32, target: i32)
        requires
            old(self).wf(),
            DB_MIN_CENTI <= target <= 0,
        ensures
            final(self).wf(),
            final(self).target == target,
            final(self).steps_left == if sample_rate / SMOOTHING_DIVISOR == 0 || target
                == old(self).current {
                0u32
            } else {
                sample_rate / SMOOTHING_DIVISOR
            },
            final(self).current == if sample_rate / SMOOTHING_DIVISOR == 0 || target
                == old(self).current {
                target
            } else {
                old(self).current
            },
    {
        let steps = sample_rate / SMOOTHING_DIVISOR;
        if steps == 0 || target == self.current {
            self.current = target;
            self.target = target;
            self.steps_left = 0;
        } else {
            self.target = target;
            self.steps_left = steps;
        }
    }

    /// Snaps the value to the target at once, discarding any armed steps.
    pub fn reset(&mut self)
        requires
            old(self).wf(),
        ensures
            final(self).wf(),
            final(self).current == old(self).target,
            final(self).target == old(self).target,
            final(self).steps_left == 0,
    {
        self.current = self.target;
        self.steps_left = 0;
    }

    /// Advances one sample step and returns the interpolated value.
    pub fn next(&mut self) -> (v: i32)
        requires
            old(self).wf(),
        ensures
            *final(self) == old(self).step_spec(),
            final(self).wf(),
            v == final(self).current,
    {
        proof {
            self.lemma_step_spec_props();
        }
        if self.steps_left == 0 {
        } else if self.steps_left == 1 {
            self.current = self.target;
            self.steps_left = 0;
        } else if self.target >= self.current {
            let d: u32 = (self.target - self.current) as u32;
            self.current = self.current + (d / self.steps_left) as i32;
            self.steps_left = self.steps_left - 1;
        } else {
            let d: u32 = (self.current - self.target) as u32;
            self.current = self.current - (d / self.steps_left) as i32;
            self.steps_left = self.steps_left - 1;
        }
        self.current
    }
}

} // verus!

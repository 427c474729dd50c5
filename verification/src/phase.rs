//! The phase accumulator and the fixed-point sine wave derived from it.
//!
//! A phase is a `u32` number of ticks in `[0, CYCLE)`. Advancing adds the
//! per-sample increment and wraps once at the cycle boundary; increments are
//! required to be below one full cycle, which is exactly what keeps the
//! single-step wrap sufficient.
//!
//! The sine wave is the classic parabolic approximation: over the first half
//! cycle the wave is the arch `4 * t * (HALF_CYCLE - t) / HALF_CYCLE^2`, over
//! the second half its mirror image below the axis. The processed value is
//! `(1 + sin) / 2`, rescaled into `[0, UNIT]`, so the modulator never inverts
//! signal polarity.

use vstd::prelude::*;

use crate::{CYCLE, HALF_CYCLE, UNIT};

verus! {

/// Divisor turning the arch numerator `t * (HALF_CYCLE - t)` into a Q16
/// value: `HALF_CYCLE * HALF_CYCLE / (4 * UNIT)` (2^28).
pub const ARCH_DIV: u64 = 268435456;

/// The phase one advance later: add the increment, subtract one full cycle
/// when the sum leaves `[0, CYCLE)`.
pub open spec fn wrapped_phase(phase: int, delta: int) -> int {
    if phase + delta >= CYCLE {
        phase + delta - CYCLE
    } else {
        phase + delta
    }
}

/// Advances a phase by one per-sample increment with single-step wrap-around.
pub fn advance_phase(phase: u32, delta: u32) -> (r: u32)
    requires
        phase < CYCLE,
        delta < CYCLE,
    ensures
        r == wrapped_phase(phase as int, delta as int),
        r < CYCLE,
{
    let sum = phase + delta;
    if sum >= CYCLE {
        sum - CYCLE
    } else {
        sum
    }
}

/// The phase reached from `start` after advancing once per entry of
/// `deltas`, in order.
pub open spec fn phase_after(start: int, deltas: Seq<int>) -> int
    decreases deltas.len(),
{
    if deltas.len() == 0 {
        start
    } else {
        wrapped_phase(phase_after(start, deltas.drop_last()), deltas.last())
    }
}

/// Law: for every starting phase in `[0, CYCLE)` and every sequence of
/// increments each in `[0, CYCLE)`, the phase is still in `[0, CYCLE)` after
/// any number of advances.
pub proof fn lemma_phase_wrap_invariant(start: int, deltas: Seq<int>)
    requires
        0 <= start < CYCLE,
        forall|i: int| 0 <= i < deltas.len() ==> 0 <= #[trigger] deltas[i] < CYCLE,
    ensures
        0 <= phase_after(start, deltas) < CYCLE,
    decreases deltas.len(),
{
    if deltas.len() > 0 {
        lemma_phase_wrap_invariant(start, deltas.drop_last());
    }
}

/// The parabolic arch height at `t` ticks into a half cycle, as a Q16 value.
pub open spec fn arch_height(t: int) -> int {
    (t * (HALF_CYCLE - t)) / (ARCH_DIV as int)
}

/// The rescaled sine sample `(1 + sin(phase)) / 2` at a phase, as a Q16
/// value: above the midline during the first half cycle, below it during the
/// second.
pub open spec fn sin_sample_spec(phase: int) -> int {
    if phase < HALF_CYCLE {
        (UNIT + arch_height(phase)) / 2
    } else {
        (UNIT - arch_height(phase - HALF_CYCLE)) / 2
    }
}

/// The arch stays within `[0, UNIT]` across its half cycle.
pub proof fn lemma_arch_height_bounds(t: int)
    requires
        0 <= t < HALF_CYCLE,
    ensures
        0 <= arch_height(t) <= UNIT,
{
    assert(0 <= t * (HALF_CYCLE - t) <= 17592186044416) by (nonlinear_arith)
        requires
            0 <= t < 8388608,
    ;
}

/// Law: every sine sample lies in `[0, UNIT]`, so the modulation wave never
/// leaves the unit interval.
pub proof fn lemma_sin_sample_bounds(phase: int)
    requires
        0 <= phase < CYCLE,
    ensures
        0 <= sin_sample_spec(phase) <= UNIT,
{
    if phase < HALF_CYCLE {
        lemma_arch_height_bounds(phase);
    } else {
        lemma_arch_height_bounds(phase - HALF_CYCLE);
    }
}

/// Computes the rescaled sine sample for a phase.
pub fn sin_sample(phase: u32) -> (r: u32)
    requires
        phase < CYCLE,
    ensures
        r == sin_sample_spec(phase as int),
        r <= UNIT,
{
    proof {
        lemma_sin_sample_bounds(phase as int);
    }
    if phase < HALF_CYCLE {
        proof {
            lemma_arch_height_bounds(phase as int);
        }
        let h = ((phase as u64) * ((HALF_CYCLE - phase) as u64) / ARCH_DIV) as u32;
        (UNIT + h) / 2
    } else {
        let t = phase - HALF_CYCLE;
        proof {
            lemma_arch_height_bounds(t as int);
        }
        let h = ((t as u64) * ((HALF_CYCLE - t) as u64) / ARCH_DIV) as u32;
        (UNIT - h) / 2
    }
}

} // verus!

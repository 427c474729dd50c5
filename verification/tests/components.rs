use lfo_cool::gain::gain_from_cdb;
use lfo_cool::phase::{advance_phase, sin_sample};
use lfo_cool::smoother::Smoother;
use lfo_cool::{CYCLE, HALF_CYCLE, UNIT};

/// Advancing wraps once at the cycle boundary and stays inside the cycle
/// for long runs of varied increments.
#[test]
fn phase_advance_wraps_and_stays_in_cycle() {
    assert_eq!(advance_phase(CYCLE - 1, 1), 0);
    assert_eq!(advance_phase(0, 12_345), 12_345);
    assert_eq!(advance_phase(HALF_CYCLE, HALF_CYCLE), 0);
    let mut phase = 0u32;
    let mut delta = 1u32;
    for _ in 0..10_000 {
        phase = advance_phase(phase, delta);
        assert!(phase < CYCLE);
        delta = (delta * 7 + 123_457) % CYCLE;
    }
}

/// The rescaled sine at its cardinal phases: one half at 0 and at half a
/// cycle, one at a quarter cycle, zero at three quarters.
#[test]
fn sin_sample_cardinal_points() {
    assert_eq!(sin_sample(0), 32_768);
    assert_eq!(sin_sample(CYCLE / 4), UNIT);
    assert_eq!(sin_sample(HALF_CYCLE), 32_768);
    assert_eq!(sin_sample(3 * (CYCLE / 4)), 0);
    assert_eq!(sin_sample(12_345), 32_960);
}

/// Every sine sample lies in the unit interval, sampled across the cycle.
#[test]
fn sin_sample_in_unit_interval() {
    let mut phase = 0u32;
    while phase < CYCLE {
        assert!(sin_sample(phase) <= UNIT);
        phase += 65_536;
    }
}

/// Exact gains at landmark depths, including unity at 0 dB.
#[test]
fn gain_table() {
    assert_eq!(gain_from_cdb(0), UNIT);
    assert_eq!(gain_from_cdb(-1), 65_460);
    assert_eq!(gain_from_cdb(-100), 58_409);
    assert_eq!(gain_from_cdb(-2000), 6_553);
    assert_eq!(gain_from_cdb(-6000), 65);
}

/// Gains fall monotonically as depth drops, decibel by decibel.
#[test]
fn gain_monotone_in_depth() {
    let mut previous = gain_from_cdb(-6000);
    let mut cdb = -5900;
    while cdb <= 0 {
        let g = gain_from_cdb(cdb);
        assert!(g >= previous);
        assert!(g <= UNIT);
        previous = g;
        cdb += 100;
    }
}

/// An upward run moves monotonically, never overshoots, and lands exactly
/// on the target within the armed 50 ms step count.
#[test]
fn smoother_rises_monotonically_to_target() {
    let mut smoother = Smoother::resting(-6000);
    smoother.set_target(48_000, 0);
    let steps = 48_000 / 20;
    let mut previous = -6000;
    for _ in 0..steps {
        let value = smoother.next();
        assert!(value >= previous);
        assert!(value <= 0);
        previous = value;
    }
    assert_eq!(previous, 0);
    assert_eq!(smoother.next(), 0);
}

/// A downward run mirrors the upward one.
#[test]
fn smoother_falls_monotonically_to_target() {
    let mut smoother = Smoother::resting(0);
    smoother.set_target(200, -2000);
    let mut previous = 0;
    for _ in 0..10 {
        let value = smoother.next();
        assert!(value <= previous);
        assert!(value >= -2000);
        previous = value;
    }
    assert_eq!(previous, -2000);
}

/// Retargeting midway restarts the ramp from wherever the value stands.
#[test]
fn smoother_retarget_midway() {
    let mut smoother = Smoother::resting(-2000);
    smoother.set_target(200, 0);
    for _ in 0..5 {
        smoother.next();
    }
    let midway = smoother.current;
    assert_eq!(midway, -1000);
    smoother.set_target(200, -2000);
    let mut previous = midway;
    for _ in 0..10 {
        let value = smoother.next();
        assert!(value <= previous);
        previous = value;
    }
    assert_eq!(previous, -2000);
}

/// A sample rate too low for even one smoothing step takes effect at once.
#[test]
fn smoother_low_rate_is_immediate() {
    let mut smoother = Smoother::resting(-3000);
    smoother.set_target(19, 0);
    assert_eq!(smoother.next(), 0);
}

use lfo_cool::engine::{apply_gain, multiplier, phase_increment, LfoCool, ProcessStatus};
use lfo_cool::{CYCLE, UNIT};

/// Frequency 0 and depth at 0 dB: the oscillator stands still at phase 0,
/// where the rescaled sine is exactly one half, so full-depth modulation
/// multiplies a constant 1.0 input by exactly 0.5.
#[test]
fn static_phase_full_depth_halves_input() {
    let mut engine = LfoCool::default();
    engine.params.gain_mod.set_value(48000, 0);
    engine.params.gain_mod.reset();
    let one = 1_048_576i32; // 1.0 in the caller's Q20 sample scale
    let mut buffer = vec![vec![one; 64], vec![one; 64]];
    let status = engine.process(&mut buffer, 48000);
    assert_eq!(status, ProcessStatus::Normal);
    for channel in &buffer {
        for &sample in channel {
            assert_eq!(sample, 524_288);
        }
    }
}

/// Depth at its normalized-zero minimum bypasses exactly: a 512-sample
/// block of constant 2.0 input comes out unchanged on every channel, even
/// with the oscillator running at frequency 50.
#[test]
fn bypass_leaves_block_unchanged() {
    let mut engine = LfoCool::default();
    engine.params.frequency.set_value(5000);
    assert!(engine.params.gain_mod.normalized_value_is_zero());
    let two = 2_097_152i32;
    let mut buffer = vec![vec![two; 512], vec![two; 512]];
    engine.process(&mut buffer, 48000);
    for channel in &buffer {
        assert_eq!(channel.len(), 512);
        for &sample in channel {
            assert_eq!(sample, two);
        }
    }
}

/// Frequency 100.00 at 44100 Hz maps to the tick form of
/// `100 * pi / 44100` radians per sample.
#[test]
fn frequency_to_increment_mapping() {
    assert_eq!(phase_increment(10_000, 44_100), 19_021);
    assert_eq!(phase_increment(5_000, 48_000), 8_738);
    assert_eq!(phase_increment(0, 48_000), 0);
}

/// A short full-depth run at frequency 100.00: the multiplier follows the
/// rising sine from its midpoint, sample by sample.
#[test]
fn full_depth_run_follows_sine() {
    let mut engine = LfoCool::default();
    engine.params.frequency.set_value(10_000);
    engine.params.gain_mod.set_value(48_000, 0);
    engine.params.gain_mod.reset();
    let one = 1_048_576i32;
    let mut buffer = vec![vec![one; 4]];
    engine.process(&mut buffer, 48_000);
    assert_eq!(buffer[0], vec![524_288, 528_640, 532_976, 537_312]);
    assert_eq!(engine.phase_tau_delta, 17_476);
    assert_eq!(engine.current_phase_tau, 4 * 17_476);
}

/// A depth ramp from -20 dB toward 0 dB over ten smoothing steps: the
/// output rises monotonically and settles exactly on half the input once
/// the smoother lands on 0 dB.
#[test]
fn smoothed_depth_ramp_converges() {
    let mut engine = LfoCool::default();
    engine.params.gain_mod.set_value(200, -2000);
    engine.params.gain_mod.reset();
    engine.params.gain_mod.set_value(200, 0);
    let one = 1_048_576i32;
    let mut buffer = vec![vec![one; 12]];
    engine.process(&mut buffer, 200);
    let expected = vec![
        982_576, 965_488, 943_968, 916_880, 882_784, 839_856, 785_808, 717_776, 632_112, 524_288,
        524_288, 524_288,
    ];
    assert_eq!(buffer[0], expected);
    for window in buffer[0].windows(2) {
        assert!(window[1] <= window[0]);
    }
}

/// The multiplier formula at its corners: zero gain passes unity, full gain
/// follows the sine sample exactly.
#[test]
fn multiplier_corners() {
    assert_eq!(multiplier(0, 0), UNIT);
    assert_eq!(multiplier(0, UNIT), UNIT);
    assert_eq!(multiplier(UNIT, 32_768), 32_768);
    assert_eq!(multiplier(UNIT, 0), 0);
    assert_eq!(multiplier(UNIT, UNIT), UNIT);
}

/// Multipliers never leave the unit interval for any gain and sine sample,
/// sampled over a grid.
#[test]
fn multiplier_stays_in_unit_interval() {
    for gain in (0..=UNIT).step_by(4096) {
        for s in (0..=UNIT).step_by(4096) {
            let m = multiplier(gain, s);
            assert!(m <= UNIT);
        }
    }
}

/// Scaling samples: unity leaves them untouched (both signs), other
/// multipliers round toward zero.
#[test]
fn apply_gain_exact_values() {
    assert_eq!(apply_gain(1_048_576, 32_768), 524_288);
    assert_eq!(apply_gain(-3, 65_536), -3);
    assert_eq!(apply_gain(7, 21_845), 2);
    assert_eq!(apply_gain(-7, 21_845), -2);
    assert_eq!(apply_gain(i32::MIN, 65_536), i32::MIN);
    assert_eq!(apply_gain(i32::MAX, 65_536), i32::MAX);
    assert_eq!(apply_gain(123, 0), 0);
}

/// A host reset changes nothing: the oscillator phase keeps free-running
/// and an in-flight depth ramp continues undisturbed.
#[test]
fn reset_changes_nothing() {
    let mut engine = LfoCool::default();
    engine.params.frequency.set_value(10_000);
    engine.params.gain_mod.set_value(48_000, -1000);
    let one = 1_048_576i32;
    let mut buffer = vec![vec![one; 8]];
    engine.process(&mut buffer, 48_000);
    let phase = engine.current_phase_tau;
    let delta = engine.phase_tau_delta;
    let current = engine.params.gain_mod.smoother.current;
    let steps_left = engine.params.gain_mod.smoother.steps_left;
    assert!(phase > 0);
    assert!(steps_left > 0);
    engine.reset();
    assert_eq!(engine.current_phase_tau, phase);
    assert_eq!(engine.phase_tau_delta, delta);
    assert_eq!(engine.params.gain_mod.smoother.current, current);
    assert_eq!(engine.params.gain_mod.smoother.target, -1000);
    assert_eq!(engine.params.gain_mod.smoother.steps_left, steps_left);
}

/// A fresh engine: frequency 0, depth smoother at rest on its bypass
/// minimum, phase 0.
#[test]
fn default_engine_state() {
    let engine = LfoCool::default();
    assert_eq!(engine.params.frequency.value(), 0);
    assert!(engine.params.gain_mod.normalized_value_is_zero());
    assert_eq!(engine.params.gain_mod.smoother.current, -6000);
    assert_eq!(engine.params.gain_mod.smoother.target, -6000);
    assert_eq!(engine.params.gain_mod.smoother.steps_left, 0);
    assert_eq!(engine.current_phase_tau, 0);
    assert_eq!(engine.phase_tau_delta, 0);
}

/// State persists across blocks: processing one block of 2n frames equals
/// processing two consecutive blocks of n frames.
#[test]
fn state_carries_across_blocks() {
    let one = 1_048_576i32;
    let mut whole = LfoCool::default();
    whole.params.frequency.set_value(7_500);
    whole.params.gain_mod.set_value(48_000, 0);
    let mut split = LfoCool::default();
    split.params.frequency.set_value(7_500);
    split.params.gain_mod.set_value(48_000, 0);

    let mut big = vec![vec![one; 256]];
    whole.process(&mut big, 48_000);

    let mut first = vec![vec![one; 128]];
    let mut second = vec![vec![one; 128]];
    split.process(&mut first, 48_000);
    split.process(&mut second, 48_000);

    let mut joined = first[0].clone();
    joined.extend_from_slice(&second[0]);
    assert_eq!(big[0], joined);
    assert_eq!(whole.current_phase_tau, split.current_phase_tau);
    assert!(whole.current_phase_tau < CYCLE);
}

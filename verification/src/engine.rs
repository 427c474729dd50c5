//! The per-sample processing engine: a phase-accumulating oscillator whose
//! rescaled sine wave, weighted by the smoothed modulation depth, multiplies
//! every channel of an audio block in place.
//!
//! Per block the engine derives the phase increment from the frequency
//! control and the sample rate. Per sample frame it then
//! 1. takes the gain: zero outright when the depth control sits on its
//!    normalized-zero bypass position (the smoother is not advanced), else
//!    the next smoothed depth converted to linear gain;
//! 2. reads the sine sample at the current phase;
//! 3. advances and wraps the phase;
//! 4. forms the multiplier `1 - gain + gain * sin_sample`, which
//!    interpolates between no modulation and the full sine wave; and
//! 5. multiplies every channel's sample at that frame by it, so all
//!    channels share one phase and one multiplier.

use vstd::prelude::*;

use crate::gain::{gain_from_cdb, gain_of_cdb, DB_MIN_CENTI};
use crate::params::{DepthParam, PlugParams};
use crate::phase::{advance_phase, lemma_sin_sample_bounds, sin_sample, sin_sample_spec, wrapped_phase};
use crate::{CYCLE, HALF_CYCLE, UNIT};

verus! {

/// Status handed back to the host after a block: this engine always
/// continues normally.
#[derive(Clone, Copy, PartialEq, Eq, Structural, Debug)]
pub enum ProcessStatus {
    /// Processing completed; keep the stream running.
    Normal,
}

/// Ticks the phase advances per sample for a frequency control value and a
/// sample rate: the half-cycle-per-unit convention `frequency * pi /
/// sample_rate`, in ticks.
pub open spec fn phase_increment_spec(freq_centi: int, sample_rate: int) -> int {
    (freq_centi * HALF_CYCLE) / (100 * sample_rate)
}

/// The per-sample multiplier for a Q16 gain and a Q16 sine sample:
/// `1 - gain + gain * sin_sample` in Q16.
pub open spec fn multiplier_spec(gain: int, s: int) -> int {
    UNIT - gain + (gain * s) / (UNIT as int)
}

/// A sample scaled by a Q16 multiplier, rounded toward zero.
pub open spec fn apply_spec(sample: int, m: int) -> int {
    if sample >= 0 {
        (sample * m) / (UNIT as int)
    } else {
        -(((-sample) * m) / (UNIT as int))
    }
}

/// The number of sample frames in a block: the length of its first channel.
pub open spec fn frames_of(buf: Seq<Vec<i32>>) -> nat {
    if buf.len() == 0 {
        0
    } else {
        buf[0]@.len()
    }
}

/// Law: the multiplier of any gain in `[0, UNIT]` and any sine sample in
/// `[0, UNIT]` stays within `[0, UNIT]` -- modulation never amplifies above
/// unity and never goes negative. At full depth (`gain == UNIT`) the
/// multiplier is exactly the sine sample, and at zero gain exactly `UNIT`.
pub proof fn lemma_multiplier_bounds(gain: int, s: int)
    requires
        0 <= gain <= UNIT,
        0 <= s <= UNIT,
    ensures
        UNIT - gain <= multiplier_spec(gain, s) <= UNIT,
        0 <= multiplier_spec(gain, s) <= UNIT,
        gain == UNIT ==> multiplier_spec(gain, s) == s,
        gain == 0 ==> multiplier_spec(gain, s) == UNIT,
{
    assert(0 <= gain * s <= gain * UNIT) by (nonlinear_arith)
        requires
            0 <= gain,
            0 <= s <= UNIT,
    ;
    assert((gain * UNIT) / (UNIT as int) == gain) by (nonlinear_arith);
    assert((gain * s) / (UNIT as int) <= (gain * UNIT) / (UNIT as int)) by (nonlinear_arith)
        requires
            0 <= gain * s <= gain * UNIT,
    ;
    if gain == UNIT {
        assert((UNIT * s) / (UNIT as int) == s) by (nonlinear_arith);
    }
}

/// Law: at full depth (0 dB, gain exactly `UNIT`) the multiplier follows
/// the sine sample exactly and stays within `[0, UNIT]` for every phase
/// value -- fully engaged modulation never amplifies above unity and never
/// goes negative.
pub proof fn lemma_full_depth_bound(phase: int)
    requires
        0 <= phase < CYCLE,
    ensures
        multiplier_spec(UNIT as int, sin_sample_spec(phase)) == sin_sample_spec(phase),
        0 <= multiplier_spec(UNIT as int, sin_sample_spec(phase)) <= UNIT,
{
    lemma_sin_sample_bounds(phase);
    lemma_multiplier_bounds(UNIT as int, sin_sample_spec(phase));
}

/// Law: a multiplier of exactly `UNIT` leaves every sample unchanged.
pub proof fn lemma_apply_unit(sample: int)
    ensures
        apply_spec(sample, UNIT as int) == sample,
{
    if sample >= 0 {
        assert((sample * UNIT) / (UNIT as int) == sample) by (nonlinear_arith);
    } else {
        assert(((-sample) * UNIT) / (UNIT as int) == -sample) by (nonlinear_arith);
    }
}

/// Scaling by a multiplier within `[0, UNIT]` never grows a sample's
/// magnitude.
pub proof fn lemma_apply_bounds(sample: int, m: int)
    requires
        0 <= m <= UNIT,
        i32::MIN <= sample <= i32::MAX,
    ensures
        sample >= 0 ==> 0 <= apply_spec(sample, m) <= sample,
        sample < 0 ==> sample <= apply_spec(sample, m) <= 0,
{
    let mag = if sample >= 0 { sample } else { -sample };
    assert(0 <= mag * m <= mag * UNIT) by (nonlinear_arith)
        requires
            0 <= mag,
            0 <= m <= UNIT,
    ;
    assert((mag * UNIT) / (UNIT as int) == mag) by (nonlinear_arith);
    assert((mag * m) / (UNIT as int) <= (mag * UNIT) / (UNIT as int)) by (nonlinear_arith)
        requires
            0 <= mag * m <= mag * UNIT,
    ;
}

/// Computes the per-sample phase increment in ticks.
pub fn phase_increment(freq_centi: u32, sample_rate: u32) -> (d: u32)
    requires
        sample_rate >= 1,
        freq_centi <= crate::params::FREQ_MAX_CENTI,
    ensures
        d == phase_increment_spec(freq_centi as int, sample_rate as int),
{
    let num: u64 = (freq_centi as u64) * (HALF_CYCLE as u64);
    proof {
        assert(num <= 10000 * (HALF_CYCLE as int)) by (nonlinear_arith)
            requires
                freq_centi <= 10000,
                num == freq_centi * (HALF_CYCLE as int),
        ;
        vstd::arithmetic::div_mod::lemma_div_denominator(num as int, 100, sample_rate as int);
        vstd::arithmetic::div_mod::lemma_div_is_ordered(
            num as int,
            10000 * (HALF_CYCLE as int),
            100,
        );
    }
    let per_unit: u64 = num / 100;
    let d64: u64 = per_unit / (sample_rate as u64);
    proof {
        vstd::arithmetic::div_mod::lemma_div_is_ordered_by_denominator(
            per_unit as int,
            1,
            sample_rate as int,
        );
    }
    d64 as u32
}

/// Computes the per-sample multiplier from a Q16 gain and sine sample.
pub fn multiplier(gain: u32, s: u32) -> (m: u32)
    requires
        gain <= UNIT,
        s <= UNIT,
    ensures
        m == multiplier_spec(gain as int, s as int),
        m <= UNIT,
{
    proof {
        lemma_multiplier_bounds(gain as int, s as int);
    }
    let prod: u64 = (gain as u64) * (s as u64) / (UNIT as u64);
    ((UNIT - gain) as u64 + prod) as u32
}

/// Scales one sample in place by a Q16 multiplier.
pub fn apply_gain(sample: i32, m: u32) -> (r: i32)
    requires
        m <= UNIT,
    ensures
        r == apply_spec(sample as int, m as int),
{
    proof {
        lemma_apply_bounds(sample as int, m as int);
    }
    if sample >= 0 {
        ((sample as u64) * (m as u64) / (UNIT as u64)) as i32
    } else {
        let mag: u64 = (-(sample as i64)) as u64;
        let scaled: u64 = mag * (m as u64) / (UNIT as u64);
        (-(scaled as i64)) as i32
    }
}

/// The LFO-driven amplitude modulator: the two controls plus the oscillator
/// state shared by all channels.
pub struct LfoCool {
    /// The user-facing controls.
    pub params: PlugParams,
    /// Current oscillator position, in ticks within `[0, CYCLE)`.
    pub current_phase_tau: u32,
    /// Ticks advanced per sample, recomputed at every block start.
    pub phase_tau_delta: u32,
}

impl LfoCool {
    /// Well-formed engine state: parameters in range and the phase inside
    /// one cycle.
    pub open spec fn wf(self) -> bool {
        &&& self.params.wf()
        &&& self.current_phase_tau < CYCLE
    }

    /// Whether the depth control sits on its normalized-zero bypass
    /// position.
    pub open spec fn bypassed(self) -> bool {
        self.params.gain_mod.normalized_is_zero()
    }

    /// The Q16 gain a frame starting in this state uses: zero outright under
    /// bypass, else the next smoothed depth as linear gain.
    pub open spec fn frame_gain(self) -> int {
        if self.bypassed() {
            0
        } else {
            gain_of_cdb(self.params.gain_mod.smoother.step_spec().current as int)
        }
    }

    /// The Q16 multiplier a frame starting in this state applies to every
    /// channel.
    pub open spec fn frame_multiplier(self) -> int {
        multiplier_spec(self.frame_gain(), sin_sample_spec(self.current_phase_tau as int))
    }

    /// The state one frame later: depth smoother advanced (unless bypassed)
    /// and phase advanced with wrap-around.
    pub open spec fn frame_step(self) -> LfoCool {
        LfoCool {
            params: PlugParams {
                frequency: self.params.frequency,
                gain_mod: DepthParam {
                    smoother: if self.bypassed() {
                        self.params.gain_mod.smoother
                    } else {
                        self.params.gain_mod.smoother.step_spec()
                    },
                },
            },
            current_phase_tau: wrapped_phase(
                self.current_phase_tau as int,
                self.phase_tau_delta as int,
            ) as u32,
            phase_tau_delta: self.phase_tau_delta,
        }
    }

    /// The state after `k` frames.
    pub open spec fn state_at(self, k: nat) -> LfoCool
        decreases k,
    {
        if k == 0 {
            self
        } else {
            self.state_at((k - 1) as nat).frame_step()
        }
    }

    /// The state at the top of a block: the phase increment derived from the
    /// current frequency value and the sample rate.
    pub open spec fn block_start(self, sample_rate: u32) -> LfoCool {
        LfoCool {
            params: self.params,
            current_phase_tau: self.current_phase_tau,
            phase_tau_delta: phase_increment_spec(
                self.params.frequency.value_centi as int,
                sample_rate as int,
            ) as u32,
        }
    }

    /// One frame keeps the state well formed and changes neither the
    /// controls' targets, the increment, nor the bypass position.
    pub proof fn lemma_frame_step_props(self)
        requires
            self.wf(),
            self.phase_tau_delta < CYCLE,
        ensures
            self.frame_step().wf(),
            self.frame_step().phase_tau_delta == self.phase_tau_delta,
            self.frame_step().params.frequency == self.params.frequency,
            self.frame_step().params.gain_mod.smoother.target
                == self.params.gain_mod.smoother.target,
            self.frame_step().bypassed() == self.bypassed(),
    {
        self.params.gain_mod.smoother.lemma_step_spec_props();
    }

    /// Every state along a block keeps well-formedness, the increment, the
    /// controls' targets and the bypass position of the block's start.
    pub proof fn lemma_state_at_props(self, k: nat)
        requires
            self.wf(),
            self.phase_tau_delta < CYCLE,
        ensures
            self.state_at(k).wf(),
            self.state_at(k).phase_tau_delta == self.phase_tau_delta,
            self.state_at(k).params.frequency == self.params.frequency,
            self.state_at(k).params.gain_mod.smoother.target
                == self.params.gain_mod.smoother.target,
            self.state_at(k).bypassed() == self.bypassed(),
        decreases k,
    {
        if k > 0 {
            self.lemma_state_at_props((k - 1) as nat);
            self.state_at((k - 1) as nat).lemma_frame_step_props();
        }
    }

    /// Law: bypass is exact. From a bypassed state every frame of a block
    /// has multiplier exactly `UNIT`, so (with `lemma_apply_unit`) every
    /// output sample equals its input sample, whatever the phase does.
    pub proof fn lemma_bypass_exact(self, k: nat)
        requires
            self.bypassed(),
        ensures
            self.state_at(k).frame_multiplier() == UNIT,
        decreases k,
    {
        let st = self.state_at(k);
        assert(st.bypassed()) by {
            self.lemma_bypass_preserved(k);
        }
        assert(multiplier_spec(0, sin_sample_spec(st.current_phase_tau as int)) == UNIT);
    }

    /// Bypass only depends on the depth target, which no frame changes.
    pub proof fn lemma_bypass_preserved(self, k: nat)
        requires
            self.bypassed(),
        ensures
            self.state_at(k).bypassed(),
        decreases k,
    {
        if k > 0 {
            self.lemma_bypass_preserved((k - 1) as nat);
        }
    }

    /// Law: bypass exactness end to end. Whenever a block is processed from
    /// a state whose depth control sits on its normalized-zero position,
    /// every output sample equals its input sample exactly, for every
    /// channel and frame, regardless of oscillator phase.
    pub proof fn lemma_bypass_block_identity(
        pre: LfoCool,
        sample_rate: u32,
        pre_buf: Seq<Vec<i32>>,
        post: LfoCool,
        post_buf: Seq<Vec<i32>>,
    )
        requires
            pre.bypassed(),
            LfoCool::process_post(pre, sample_rate, pre_buf, post, post_buf),
        ensures
            forall|c: int, i: int|
                0 <= c < pre_buf.len() && 0 <= i < pre_buf[c]@.len() ==> (
                #[trigger] post_buf[c]@[i]) == pre_buf[c]@[i],
    {
        let start = pre.block_start(sample_rate);
        assert forall|c: int, i: int|
            0 <= c < pre_buf.len() && 0 <= i < pre_buf[c]@.len() implies (
        #[trigger] post_buf[c]@[i]) == pre_buf[c]@[i] by {
            start.lemma_bypass_exact(i as nat);
            lemma_apply_unit(pre_buf[c]@[i] as int);
        }
    }

    /// What processing one block does: the engine ends in the state reached
    /// by one frame step per sample frame from the block's start, and every
    /// channel's sample at frame `i` has been scaled by that frame's
    /// multiplier. Channel count and lengths are unchanged.
    pub open spec fn process_post(
        pre: LfoCool,
        sample_rate: u32,
        pre_buf: Seq<Vec<i32>>,
        post: LfoCool,
        post_buf: Seq<Vec<i32>>,
    ) -> bool {
        let start = pre.block_start(sample_rate);
        let n = frames_of(pre_buf);
        &&& post == start.state_at(n)
        &&& post_buf.len() == pre_buf.len()
        &&& forall|c: int|
            0 <= c < pre_buf.len() ==> (#[trigger] post_buf[c])@.len() == pre_buf[c]@.len()
        &&& forall|c: int, i: int|
            0 <= c < pre_buf.len() && 0 <= i < pre_buf[c]@.len() ==> (#[trigger] post_buf[c]@[i])
                == apply_spec(
                pre_buf[c]@[i] as int,
                start.state_at(i as nat).frame_multiplier(),
            )
    }

    /// Processes one audio block in place. The caller supplies per-channel
    /// sample vectors of equal length and a positive sample rate small
    /// enough that the derived increment stays below one full cycle (the
    /// single-step wrap precondition).
    pub fn process(&mut self, buffer: &mut Vec<Vec<i32>>, sample_rate: u32) -> (status:
        ProcessStatus)
        requires
            old(self).wf(),
            sample_rate >= 1,
            phase_increment_spec(
                old(self).params.frequency.value_centi as int,
                sample_rate as int,
            ) < CYCLE,
            forall|c: int|
                0 <= c < old(buffer)@.len() ==> (#[trigger] old(buffer)@[c])@.len() == old(
                    buffer,
                )@[0]@.len(),
        ensures
            final(self).wf(),
            LfoCool::process_post(
                *old(self),
                sample_rate,
                old(buffer)@,
                *final(self),
                final(buffer)@,
            ),
            status == ProcessStatus::Normal,
    {
        let freq = self.params.frequency.value();
        self.phase_tau_delta = phase_increment(freq, sample_rate);
        let ghost start = *self;
        let ghost obuf = buffer@;
        proof {
            assert(start == old(self).block_start(sample_rate));
        }
        let n_channels = buffer.len();
        let frames = if n_channels == 0 {
            0
        } else {
            buffer[0].len()
        };
        let mut i: usize = 0;
        while i < frames
            invariant
                i <= frames,
                start.wf(),
                start.phase_tau_delta < CYCLE,
                *self == start.state_at(i as nat),
                self.wf(),
                self.phase_tau_delta < CYCLE,
                n_channels == buffer@.len(),
                buffer@.len() == obuf.len(),
                frames as nat == frames_of(obuf),
                forall|c: int| 0 <= c < obuf.len() ==> (#[trigger] obuf[c])@.len() == frames,
                forall|c: int|
                    0 <= c < buffer@.len() ==> (#[trigger] buffer@[c])@.len() == frames,
                forall|c: int, j: int|
                    0 <= c < buffer@.len() && 0 <= j < i ==> (#[trigger] buffer@[c]@[j])
                        == apply_spec(
                        obuf[c]@[j] as int,
                        start.state_at(j as nat).frame_multiplier(),
                    ),
                forall|c: int, j: int|
                    0 <= c < buffer@.len() && i <= j < frames ==> (#[trigger] buffer@[c]@[j])
                        == obuf[c]@[j],
            decreases frames - i,
        {
            let ghost pre = *self;
            let gain: u32;
            if self.params.gain_mod.normalized_value_is_zero() {
                gain = 0;
            } else {
                let cdb = self.params.gain_mod.smoother.next();
                gain = gain_from_cdb(cdb);
            }
            proof {
                assert(gain as int == pre.frame_gain());
            }
            let s = sin_sample(self.current_phase_tau);
            let m = multiplier(gain, s);
            proof {
                assert(m as int == pre.frame_multiplier());
            }
            self.current_phase_tau = advance_phase(self.current_phase_tau, self.phase_tau_delta);
            proof {
                assert(*self == pre.frame_step());
                pre.lemma_frame_step_props();
            }
            let ghost bframe = buffer@;
            proof {
                assert(forall|ch: int, j: int|
                    0 <= ch < bframe.len() && i <= j < frames ==> (#[trigger] bframe[ch]@[j])
                        == obuf[ch]@[j]);
            }
            let mut c: usize = 0;
            while c < n_channels
                invariant
                    c <= n_channels,
                    i < frames,
                    m <= UNIT,
                    n_channels == buffer@.len(),
                    buffer@.len() == bframe.len(),
                    forall|ch: int| 0 <= ch < bframe.len() ==> (#[trigger] bframe[ch])@.len() == frames,
                    forall|ch: int|
                        0 <= ch < buffer@.len() ==> (#[trigger] buffer@[ch])@.len() == frames,
                    forall|ch: int, j: int|
                        0 <= ch < buffer@.len() && 0 <= j < frames && !(ch < c && j == i) ==> (
                        #[trigger] buffer@[ch]@[j]) == bframe[ch]@[j],
                    forall|ch: int|
                        0 <= ch < c ==> (#[trigger] buffer@[ch]@[i as int]) == apply_spec(
                            bframe[ch]@[i as int] as int,
                            m as int,
                        ),
                decreases n_channels - c,
            {
                let x = buffer[c][i];
                let y = apply_gain(x, m);
                buffer[c][i] = y;
                c = c + 1;
            }
            proof {
                assert forall|ch: int, j: int|
                    0 <= ch < buffer@.len() && 0 <= j < i + 1 implies (#[trigger] buffer@[ch]@[j])
                    == apply_spec(
                    obuf[ch]@[j] as int,
                    start.state_at(j as nat).frame_multiplier(),
                ) by {
                    if j == i {
                        assert(bframe[ch]@[j] == obuf[ch]@[j]);
                        assert(buffer@[ch]@[j] == apply_spec(bframe[ch]@[j] as int, m as int));
                        assert(m as int == start.state_at(j as nat).frame_multiplier());
                    } else {
                        assert(buffer@[ch]@[j] == bframe[ch]@[j]);
                    }
                }
                assert forall|ch: int, j: int|
                    0 <= ch < buffer@.len() && i + 1 <= j < frames implies (
                #[trigger] buffer@[ch]@[j]) == obuf[ch]@[j] by {
                    assert(buffer@[ch]@[j] == bframe[ch]@[j]);
                }
            }
            i = i + 1;
        }
        ProcessStatus::Normal
    }

    /// Handles a host reset: deliberately a no-op. The phase accumulator
    /// keeps free-running -- whether a transport restart should rewind the
    /// oscillator to phase zero (avoiding audible phase jumps between
    /// playback starts) is an open design question -- and any in-flight
    /// depth smoothing continues undisturbed.
    pub fn reset(&mut self)
        ensures
            *final(self) == *old(self),
    {
    }
}

impl Default for LfoCool {
    /// A fresh engine: default controls, phase and increment zero, the
    /// depth smoother at rest on the -60 dB minimum.
    fn default() -> (e: LfoCool)
        ensures
            e.wf(),
            e.params.frequency.value_centi == 0,
            e.params.gain_mod.normalized_is_zero(),
            e.params.gain_mod.smoother.current == DB_MIN_CENTI,
            e.params.gain_mod.smoother.target == DB_MIN_CENTI,
            e.params.gain_mod.smoother.steps_left == 0,
            e.current_phase_tau == 0,
            e.phase_tau_delta == 0,
    {
        LfoCool {
            params: PlugParams::default(),
            current_phase_tau: 0,
            phase_tau_delta: 0,
        }
    }
}

} // verus!

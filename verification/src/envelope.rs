//! The ADSR envelope: a level in [0, 1] computed from the stage a voice is
//! in and the time spent there, with the stage transitions of the master
//! envelope state machine.
//!
//! Times are Q32 seconds, levels Q16. Attack ramps 0 to 1 over `attack`
//! seconds; decay ramps 1 down to `sustain` over `decay` seconds; sustain
//! holds; release ramps `sustain` down to 0 over `release` seconds.

use vstd::prelude::*;
use crate::fixed::AMP_ONE;
use crate::note::NoteState;

verus! {

/// Shortest accepted stage duration (one Q32 tick), so that ratios never
/// divide by zero.
pub const ENV_TIME_MIN: u64 = 1;

/// Longest accepted stage duration: 60 seconds in Q32.
pub const ENV_TIME_MAX: u64 = 0x3C_0000_0000;

/// Upper bound on any time-in-stage value handed to an evaluator: one
/// stage duration plus at most one second of step.
pub const STAGE_TIME_MAX: u64 = 0x40_0000_0000;

/// The stage an envelope evaluation refers to.
#[derive(Clone, Copy, Debug, PartialEq, Eq, Structural)]
pub enum EnvelopeStage {
    Attack,
    Decay,
    Sustain,
    Release,
    Idle,
}

/// Duration and level parameters that the engine accepts.
pub open spec fn env_params_ok(attack: u64, decay: u64, sustain: i64, release: u64) -> bool {
    &&& ENV_TIME_MIN <= attack <= ENV_TIME_MAX
    &&& ENV_TIME_MIN <= decay <= ENV_TIME_MAX
    &&& ENV_TIME_MIN <= release <= ENV_TIME_MAX
    &&& 0 <= sustain <= AMP_ONE
}

/// The attack ramp before capping: t / attack in Q16.
pub open spec fn spec_attack_raw(t: int, attack: int) -> int {
    (t * 65536) / attack
}

/// The decay ramp: 1 - (1 - sustain) * (t / decay) in Q16.
pub open spec fn spec_decay_raw(t: int, decay: int, sustain: int) -> int {
    65536 - ((65536 - sustain) * t) / decay
}

/// The release ramp: sustain * (1 - t / release) in Q16.
pub open spec fn spec_release_raw(t: int, release: int, sustain: int) -> int {
    sustain - (sustain * t) / release
}

/// The envelope level for a voice state, the attack ramp capped at 1.
pub open spec fn spec_apply_envelope(
    state: NoteState,
    t: int,
    attack: int,
    decay: int,
    sustain: int,
    release: int,
) -> int {
    match state {
        NoteState::Attack => {
            let v = spec_attack_raw(t, attack);
            if v >= 65536 {
                65536
            } else {
                v
            }
        },
        NoteState::Decay => spec_decay_raw(t, decay, sustain),
        NoteState::Sustain => sustain,
        NoteState::Release => spec_release_raw(t, release, sustain),
        _ => 0,
    }
}

/// Evaluate the attack ramp, uncapped.
fn attack_raw(t: u64, attack: u64) -> (r: i64)
    requires
        t <= STAGE_TIME_MAX,
        ENV_TIME_MIN <= attack <= ENV_TIME_MAX,
    ensures
        r == spec_attack_raw(t as int, attack as int),
        0 <= r,
{
    let q: u64 = (t * 65536) / attack;
    assert(q <= t * 65536) by {
        vstd::arithmetic::div_mod::lemma_div_nonincreasing((t * 65536) as int, attack as int);
    }
    q as i64
}

/// Evaluate the decay ramp.
fn decay_raw(t: u64, decay: u64, sustain: i64) -> (r: i64)
    requires
        t <= STAGE_TIME_MAX,
        ENV_TIME_MIN <= decay <= ENV_TIME_MAX,
        0 <= sustain <= AMP_ONE,
    ensures
        r == spec_decay_raw(t as int, decay as int, sustain as int),
        r <= AMP_ONE,
{
    let fall: u64 = (AMP_ONE - sustain) as u64;
    assert(fall * t <= 65536 * STAGE_TIME_MAX) by (nonlinear_arith)
        requires
            fall <= 65536,
            0 <= t <= STAGE_TIME_MAX,
    ;
    let q: u64 = (fall * t) / decay;
    assert(q <= fall * t) by {
        vstd::arithmetic::div_mod::lemma_div_nonincreasing((fall * t) as int, decay as int);
    }
    assert(0 <= q) by {
        vstd::arithmetic::div_mod::lemma_div_pos_is_pos((fall * t) as int, decay as int);
    }
    65536 - (q as i64)
}

/// Evaluate the release ramp.
fn release_raw(t: u64, release: u64, sustain: i64) -> (r: i64)
    requires
        t <= STAGE_TIME_MAX,
        ENV_TIME_MIN <= release <= ENV_TIME_MAX,
        0 <= sustain <= AMP_ONE,
    ensures
        r == spec_release_raw(t as int, release as int, sustain as int),
        r <= AMP_ONE,
{
    let s: u64 = sustain as u64;
    assert(s * t <= 65536 * STAGE_TIME_MAX) by (nonlinear_arith)
        requires
            s <= 65536,
            0 <= t <= STAGE_TIME_MAX,
    ;
    let q: u64 = (s * t) / release;
    assert(q <= s * t) by {
        vstd::arithmetic::div_mod::lemma_div_nonincreasing((s * t) as int, release as int);
    }
    assert(0 <= q) by {
        vstd::arithmetic::div_mod::lemma_div_pos_is_pos((s * t) as int, release as int);
    }
    sustain - (q as i64)
}

/// The envelope level for a voice in `state` after `time_in_state` Q32
/// seconds there, under the given ADSR parameters. The attack ramp is
/// capped at full scale; decay and release ramps are the raw formulas and
/// may undershoot when the time outruns the stage duration.
pub fn apply_envelope(
    state: NoteState,
    time_in_state: u64,
    attack: u64,
    decay: u64,
    sustain: i64,
    release: u64,
) -> (r: i64)
    requires
        time_in_state <= STAGE_TIME_MAX,
        env_params_ok(attack, decay, sustain, release),
    ensures
        r == spec_apply_envelope(
            state,
            time_in_state as int,
            attack as int,
            decay as int,
            sustain as int,
            release as int,
        ),
        r <= AMP_ONE,
{
    match state {
        NoteState::Attack => {
            let v = attack_raw(time_in_state, attack);
            if v >= AMP_ONE {
                AMP_ONE
            } else {
                v
            }
        },
        NoteState::Decay => decay_raw(time_in_state, decay, sustain),
        NoteState::Sustain => sustain,
        NoteState::Release => release_raw(time_in_state, release, sustain),
        _ => 0,
    }
}

/// The four ADSR parameters of one envelope.
#[derive(Clone, Copy, Debug)]
pub struct Envelope {
    /// Q32 seconds to ramp from 0 to full scale.
    pub attack: u64,
    /// Q32 seconds to fall from full scale to the sustain level.
    pub decay: u64,
    /// Q16 level held while the key stays down.
    pub sustain: i64,
    /// Q32 seconds to fall from the sustain level to silence.
    pub release: u64,
}

impl Envelope {
    /// Parameter ranges every stored envelope keeps.
    pub open spec fn wf(self) -> bool {
        env_params_ok(self.attack, self.decay, self.sustain, self.release)
    }

    /// The default envelope: 0.1 s attack, 0.2 s decay, 0.7 sustain,
    /// 0.3 s release.
    pub fn new() -> (r: Envelope)
        ensures
            r.attack == 429496729,
            r.decay == 858993459,
            r.sustain == 45875,
            r.release == 1288490188,
            r.wf(),
    {
        Envelope { attack: 429496729, decay: 858993459, sustain: 45875, release: 1288490188 }
    }

    /// The envelope level at a stage after `time_in_stage` Q32 seconds,
    /// attack capped at full scale, idle silent.
    pub fn value_at_stage(&self, stage: EnvelopeStage, time_in_stage: u64) -> (r: i64)
        requires
            self.wf(),
            time_in_stage <= STAGE_TIME_MAX,
        ensures
            r == spec_apply_envelope(
                match stage {
                    EnvelopeStage::Attack => NoteState::Attack,
                    EnvelopeStage::Decay => NoteState::Decay,
                    EnvelopeStage::Sustain => NoteState::Sustain,
                    EnvelopeStage::Release => NoteState::Release,
                    EnvelopeStage::Idle => NoteState::Off,
                },
                time_in_stage as int,
                self.attack as int,
                self.decay as int,
                self.sustain as int,
                self.release as int,
            ),
            r <= AMP_ONE,
    {
        let state = match stage {
            EnvelopeStage::Attack => NoteState::Attack,
            EnvelopeStage::Decay => NoteState::Decay,
            EnvelopeStage::Sustain => NoteState::Sustain,
            EnvelopeStage::Release => NoteState::Release,
            EnvelopeStage::Idle => NoteState::Off,
        };
        apply_envelope(state, time_in_stage, self.attack, self.decay, self.sustain, self.release)
    }
}

/// While a voice stays in the attack stage, its envelope level never
/// decreases as time in the stage grows, up to the cap at full scale.
pub proof fn lemma_attack_monotone(
    t1: int,
    t2: int,
    attack: int,
    decay: int,
    sustain: int,
    release: int,
)
    requires
        0 <= t1 <= t2,
        0 < attack,
    ensures
        spec_apply_envelope(NoteState::Attack, t1, attack, decay, sustain, release)
            <= spec_apply_envelope(NoteState::Attack, t2, attack, decay, sustain, release),
        spec_apply_envelope(NoteState::Attack, t1, attack, decay, sustain, release) <= 65536,
{
    assert(t1 * 65536 <= t2 * 65536) by (nonlinear_arith)
        requires
            t1 <= t2,
    ;
    vstd::arithmetic::div_mod::lemma_div_is_ordered(t1 * 65536, t2 * 65536, attack);
}

} // verus!

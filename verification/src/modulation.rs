//! Low-frequency modulation: a sine LFO derived from the running sample
//! time, applied to volume (tremolo), filter cutoff, or pitch (vibrato).
//!
//! An LFO rate is a Q32 count of cycles per second; the constants below
//! give the rates the engine uses, k radians per second folded into cycles.

use vstd::prelude::*;
use crate::fixed::{AMP_ONE, qmul, tdiv, tdiv_exec, tmul, lemma_tmul_bound};
use crate::waveform::{PHASE_ONE, spec_sine, sine};

verus! {

/// 3 radians per second as a Q32 cycle rate.
pub const LFO_RATE_3: u64 = 2050695826;

/// 4 radians per second as a Q32 cycle rate.
pub const LFO_RATE_4: u64 = 2734261102;

/// 5 radians per second as a Q32 cycle rate.
pub const LFO_RATE_5: u64 = 3417826377;

/// 6 radians per second as a Q32 cycle rate.
pub const LFO_RATE_6: u64 = 4101391653;

/// Largest accepted Q16 rate multiplier (16 cycles-per-cycle).
pub const MOD_RATE_MAX: i64 = 1048576;

/// Upper bound on any Q32 cycle rate handed to the LFO.
pub const LFO_RATE_MAX: u64 = 0x100_0000_0000;

/// What an oscillator's modulation is wired to.
#[derive(Clone, Copy, Debug, PartialEq, Eq, Structural)]
pub enum ModulationTarget {
    Off,
    Pitch,
    FilterCutoff,
    Volume,
    PulseWidth,
}

/// The LFO phase after `st` Q32 seconds at a Q32 cycle rate `c`.
pub open spec fn spec_lfo_phase(st: int, c: int) -> int {
    ((st * c) / 0x1_0000_0000) % 0x1_0000_0000
}

/// The LFO level after `st` Q32 seconds at a Q32 cycle rate `c`.
pub open spec fn spec_lfo_sine(st: int, c: int) -> int {
    spec_sine(spec_lfo_phase(st, c))
}

/// A base Q32 cycle rate scaled by a Q16 rate multiplier.
pub open spec fn spec_rate_scaled(rate: int, c: int) -> int {
    (rate * c) / 65536
}

/// The LFO phase after `sample_time` Q32 seconds at Q32 cycle rate `c`.
pub fn lfo_phase(sample_time: u64, c: u64) -> (r: u64)
    requires
        c <= LFO_RATE_MAX,
    ensures
        r == spec_lfo_phase(sample_time as int, c as int),
        r < PHASE_ONE,
{
    assert((sample_time as int) * (c as int) <= 0xffff_ffff_ffff_ffffint * 0x100_0000_0000int)
        by (nonlinear_arith)
        requires
            sample_time <= 0xffff_ffff_ffff_ffffu64,
            0 <= c <= 0x100_0000_0000u64,
    ;
    let wide: u128 = (sample_time as u128) * (c as u128);
    let folded: u128 = (wide / 0x1_0000_0000) % 0x1_0000_0000;
    folded as u64
}

/// The LFO level after `sample_time` Q32 seconds at Q32 cycle rate `c`.
pub fn lfo_sine(sample_time: u64, c: u64) -> (r: i64)
    requires
        c <= LFO_RATE_MAX,
    ensures
        r == spec_lfo_sine(sample_time as int, c as int),
        -AMP_ONE <= r <= AMP_ONE,
{
    sine(lfo_phase(sample_time, c))
}

/// Scale a base Q32 cycle rate by a Q16 rate multiplier.
pub fn rate_scaled(rate: i64, c: u64) -> (r: u64)
    requires
        0 <= rate <= MOD_RATE_MAX,
        c <= 0x1_0000_0000,
    ensures
        r == spec_rate_scaled(rate as int, c as int),
        r <= LFO_RATE_MAX,
{
    assert((rate as int) * (c as int) <= 1048576int * 0x1_0000_0000int) by (nonlinear_arith)
        requires
            0 <= rate <= 1048576,
            0 <= c <= 0x1_0000_0000u64,
    ;
    let wide: u64 = (rate as u64) * c;
    let q: u64 = wide / 65536;
    assert(q <= 0x100_0000_0000u64) by {
        vstd::arithmetic::div_mod::lemma_div_is_ordered(
            wide as int,
            1048576int * 0x1_0000_0000int,
            65536,
        );
        vstd::arithmetic::div_mod::lemma_div_by_multiple(0x100_0000_0000, 65536);
    }
    q
}

/// The modulated value for each target: tremolo on volume, a cutoff sweep,
/// vibrato at a tenth of the amount on pitch; pulse width is handled at the
/// waveform itself and passes through here.
pub open spec fn spec_mod_apply(
    target: ModulationTarget,
    amount: int,
    rate: int,
    base: int,
    st: int,
) -> int {
    match target {
        ModulationTarget::Off => base,
        ModulationTarget::Volume => tmul(
            base,
            65536 + tmul(spec_lfo_sine(st, spec_rate_scaled(rate, LFO_RATE_6 as int)), amount),
        ),
        ModulationTarget::FilterCutoff => tmul(
            base,
            65536 + tmul(spec_lfo_sine(st, spec_rate_scaled(rate, LFO_RATE_4 as int)), amount),
        ),
        ModulationTarget::Pitch => tmul(
            base,
            65536 + tdiv(
                tmul(spec_lfo_sine(st, spec_rate_scaled(rate, LFO_RATE_5 as int)), amount),
                10,
            ),
        ),
        ModulationTarget::PulseWidth => base,
    }
}

/// One oscillator's modulation wiring.
pub struct ModulationState {
    /// Q16 depth in [0, 1].
    pub amount: i64,
    pub target: ModulationTarget,
    /// Q16 rate multiplier on the base LFO rates.
    pub rate: i64,
}

impl ModulationState {
    /// The ranges every stored modulation state keeps.
    pub open spec fn wf(self) -> bool {
        &&& 0 <= self.amount <= AMP_ONE
        &&& 0 <= self.rate <= MOD_RATE_MAX
    }

    /// Modulation switched off at unit rate.
    pub fn new() -> (r: ModulationState)
        ensures
            r.amount == 0,
            r.target == ModulationTarget::Off,
            r.rate == AMP_ONE,
            r.wf(),
    {
        ModulationState { amount: 0, target: ModulationTarget::Off, rate: AMP_ONE }
    }

    /// Apply this modulation to a Q16 base value at `sample_time` Q32
    /// seconds. The factor stays within [0, 2], so the result stays within
    /// twice the base magnitude.
    pub fn apply(&self, base_value: i64, sample_time: u64) -> (r: i64)
        requires
            self.wf(),
            -0x2000_0000 <= base_value <= 0x2000_0000,
        ensures
            r == spec_mod_apply(
                self.target,
                self.amount as int,
                self.rate as int,
                base_value as int,
                sample_time as int,
            ),
            -0x4000_0000 <= r <= 0x4000_0000,
    {
        match self.target {
            ModulationTarget::Off => base_value,
            ModulationTarget::Volume => {
                let wave: i64 = lfo_sine(sample_time, rate_scaled(self.rate, LFO_RATE_6));
                let swing: i64 = qmul(wave, self.amount);
                proof {
                    lemma_tmul_bound(wave as int, self.amount as int, 65536, 65536);
                }
                let r = qmul(base_value, AMP_ONE + swing);
                proof {
                    lemma_tmul_bound(
                        base_value as int,
                        65536 + tmul(wave as int, self.amount as int),
                        0x2000_0000,
                        131072,
                    );
                }
                r
            },
            ModulationTarget::FilterCutoff => {
                let wave: i64 = lfo_sine(sample_time, rate_scaled(self.rate, LFO_RATE_4));
                let swing: i64 = qmul(wave, self.amount);
                proof {
                    lemma_tmul_bound(wave as int, self.amount as int, 65536, 65536);
                }
                let r = qmul(base_value, AMP_ONE + swing);
                proof {
                    lemma_tmul_bound(
                        base_value as int,
                        65536 + tmul(wave as int, self.amount as int),
                        0x2000_0000,
                        131072,
                    );
                }
                r
            },
            ModulationTarget::Pitch => {
                let wave: i64 = lfo_sine(sample_time, rate_scaled(self.rate, LFO_RATE_5));
                let swing: i64 = qmul(wave, self.amount);
                proof {
                    lemma_tmul_bound(wave as int, self.amount as int, 65536, 65536);
                }
                let vib: i64 = tdiv_exec(swing, 10);
                proof {
                    crate::fixed::lemma_tdiv_ordered_abs(swing as int, 65536, 10);
                }
                let r = qmul(base_value, AMP_ONE + vib);
                proof {
                    lemma_tmul_bound(
                        base_value as int,
                        65536 + tdiv(tmul(wave as int, self.amount as int), 10),
                        0x2000_0000,
                        131072,
                    );
                }
                r
            },
            ModulationTarget::PulseWidth => base_value,
        }
    }
}

} // verus!

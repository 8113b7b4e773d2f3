//! Stateless filter approximations: amplitude-shaping heuristics per filter
//! kind, not true biquad filters.
//!
//! The cutoff is a Q16 normalized frequency, clamped into [0.01, 0.99]
//! before use. Low-pass scales by the square root of the cutoff, high-pass
//! by one minus that root, band-pass by 1 - 2 |cutoff - 1/2|, notch by the
//! complement of the band factor. The resonance parameter is accepted but
//! unused by the heuristic, a documented limitation kept as it is.

use vstd::prelude::*;
use crate::fixed::{AMP_ONE, isqrt, qmul, spec_isqrt, tmul, lemma_isqrt_bounds};

verus! {

/// Lower clamp of the Q16 cutoff (0.01 of full scale, rounded down).
pub const CUTOFF_MIN: i64 = 655;

/// Upper clamp of the Q16 cutoff (0.99 of full scale, rounded up).
pub const CUTOFF_MAX: i64 = 64881;

/// The filter kinds the engine offers.
#[derive(Clone, Copy, Debug, PartialEq, Eq, Structural)]
pub enum FilterType {
    Off,
    LowPass,
    HighPass,
    BandPass,
    Notch,
}

/// The cutoff clamped into the accepted band.
pub open spec fn spec_clamp_cutoff(c: int) -> int {
    if c < CUTOFF_MIN {
        CUTOFF_MIN as int
    } else if c > CUTOFF_MAX {
        CUTOFF_MAX as int
    } else {
        c
    }
}

/// The Q16 square root of the clamped Q16 cutoff.
pub open spec fn spec_sqrt_cutoff(c: int) -> int {
    spec_isqrt((spec_clamp_cutoff(c) * 65536) as nat) as int
}

/// The band-pass factor: 1 - 2 |cutoff - 1/2| in Q16, on the clamped
/// cutoff.
pub open spec fn spec_band_factor(c: int) -> int {
    let cl = spec_clamp_cutoff(c);
    if cl >= 32768 {
        65536 - 2 * (cl - 32768)
    } else {
        65536 - 2 * (32768 - cl)
    }
}

/// The filtered sample for each kind.
pub open spec fn spec_filter(kind: FilterType, cutoff: int, x: int) -> int {
    match kind {
        FilterType::Off => x,
        FilterType::LowPass => tmul(x, spec_sqrt_cutoff(cutoff)),
        FilterType::HighPass => tmul(x, 65536 - spec_sqrt_cutoff(cutoff)),
        FilterType::BandPass => tmul(x, spec_band_factor(cutoff)),
        FilterType::Notch => tmul(x, 65536 - spec_band_factor(cutoff)),
    }
}

/// The square root of a clamped cutoff lies within Q16 full scale.
pub proof fn lemma_sqrt_cutoff_range(c: int)
    ensures
        0 <= spec_sqrt_cutoff(c) <= 65535,
{
    let x = (spec_clamp_cutoff(c) * 65536) as nat;
    lemma_isqrt_bounds(x);
    let r = spec_isqrt(x);
    assert(x < 0x1_0000_0000);
    if r >= 65536 {
        assert(65536 * 65536 <= r * r) by (nonlinear_arith)
            requires
                65536 <= r,
        ;
    }
}

/// The band factor of a clamped cutoff lies within Q16 full scale.
pub proof fn lemma_band_factor_range(c: int)
    ensures
        0 <= spec_band_factor(c) <= 65536,
{
}

/// Clamp a Q16 cutoff into the accepted band.
pub fn clamp_cutoff(cutoff: i64) -> (r: i64)
    ensures
        r == spec_clamp_cutoff(cutoff as int),
{
    if cutoff < CUTOFF_MIN {
        CUTOFF_MIN
    } else if cutoff > CUTOFF_MAX {
        CUTOFF_MAX
    } else {
        cutoff
    }
}

/// The Q16 square root of the clamped cutoff.
pub fn sqrt_cutoff(cutoff: i64) -> (r: i64)
    ensures
        r == spec_sqrt_cutoff(cutoff as int),
        0 <= r <= 65535,
{
    let cl: i64 = clamp_cutoff(cutoff);
    let root: u64 = isqrt((cl as u64) * 65536);
    proof {
        lemma_sqrt_cutoff_range(cutoff as int);
    }
    root as i64
}

/// Apply one filter kind to a Q16 sample under a Q16 cutoff. The factor
/// never exceeds one, so the result never exceeds the input in magnitude.
pub fn apply_filter(sample: i64, filter_type: &FilterType, cutoff: i64) -> (r: i64)
    requires
        -0x4000_0000 <= sample <= 0x4000_0000,
    ensures
        r == spec_filter(*filter_type, cutoff as int, sample as int),
        -0x4000_0000 <= r <= 0x4000_0000,
        sample >= 0 ==> 0 <= r <= sample,
        sample <= 0 ==> sample <= r <= 0,
{
    if let FilterType::Off = filter_type {
        return sample;
    }
    let factor: i64 = match filter_type {
        FilterType::Off => 65536,
        FilterType::LowPass => sqrt_cutoff(cutoff),
        FilterType::HighPass => 65536 - sqrt_cutoff(cutoff),
        FilterType::BandPass => {
            let cl: i64 = clamp_cutoff(cutoff);
            if cl >= 32768 {
                65536 - 2 * (cl - 32768)
            } else {
                65536 - 2 * (32768 - cl)
            }
        },
        FilterType::Notch => {
            let cl: i64 = clamp_cutoff(cutoff);
            let band: i64 = if cl >= 32768 {
                65536 - 2 * (cl - 32768)
            } else {
                65536 - 2 * (32768 - cl)
            };
            65536 - band
        },
    };
    proof {
        lemma_band_factor_range(cutoff as int);
        lemma_sqrt_cutoff_range(cutoff as int);
    }
    let r = qmul(sample, factor);
    proof {
        lemma_scale_within(sample as int, factor as int);
    }
    r
}

/// Scaling by a factor in [0, 1] keeps a sample between zero and itself.
pub proof fn lemma_scale_within(x: int, f: int)
    requires
        0 <= f <= 65536,
        -0x4000_0000 <= x <= 0x4000_0000,
    ensures
        x >= 0 ==> 0 <= tmul(x, f) <= x,
        x <= 0 ==> x <= tmul(x, f) <= 0,
{
    if x >= 0 {
        assert(x * f <= x * 65536) by (nonlinear_arith)
            requires
                0 <= f <= 65536,
                x >= 0,
        ;
        assert(0 <= x * f) by (nonlinear_arith)
            requires
                0 <= f,
                0 <= x,
        ;
        vstd::arithmetic::div_mod::lemma_div_is_ordered(x * f, x * 65536, 65536);
        vstd::arithmetic::div_mod::lemma_div_by_multiple(x, 65536);
        vstd::arithmetic::div_mod::lemma_div_pos_is_pos(x * f, 65536);
    } else {
        assert((-x) * f <= (-x) * 65536) by (nonlinear_arith)
            requires
                0 <= f <= 65536,
                x <= 0,
        ;
        assert(0 <= (-x) * f) by (nonlinear_arith)
            requires
                0 <= f,
                x <= 0,
        ;
        assert(-(x * f) == (-x) * f) by (nonlinear_arith);
        vstd::arithmetic::div_mod::lemma_div_is_ordered((-x) * f, (-x) * 65536, 65536);
        vstd::arithmetic::div_mod::lemma_div_by_multiple(-x, 65536);
        vstd::arithmetic::div_mod::lemma_div_pos_is_pos((-x) * f, 65536);
    }
}

/// One filter slot: its kind, parameters, and the state words a stateful
/// implementation would use. The heuristic here is stateless, so `process`
/// leaves the state words untouched.
pub struct FilterState {
    pub filter_type: FilterType,
    /// Q16 normalized cutoff.
    pub cutoff: i64,
    /// Q16 resonance, accepted but unused by the heuristic.
    pub resonance: i64,
    pub state_vars: [i64; 4],
}

impl FilterState {
    /// A pass-through filter slot.
    pub fn new() -> (r: FilterState)
        ensures
            r.filter_type == FilterType::Off,
            r.cutoff == AMP_ONE,
            r.resonance == 0,
    {
        FilterState { filter_type: FilterType::Off, cutoff: AMP_ONE, resonance: 0, state_vars: [
            0,
            0,
            0,
            0,
        ] }
    }

    /// Filter one Q16 sample with this slot's kind and cutoff.
    pub fn process(&mut self, input: i64) -> (r: i64)
        requires
            -0x4000_0000 <= input <= 0x4000_0000,
        ensures
            r == spec_filter(old(self).filter_type, old(self).cutoff as int, input as int),
            -0x4000_0000 <= r <= 0x4000_0000,
            *final(self) == *old(self),
    {
        apply_filter(input, &self.filter_type, self.cutoff)
    }
}

} // verus!

//! Waveform generation: a pure function from phase to sample value for each
//! waveform kind.
//!
//! Phase is a Q32 fraction of one cycle: a `u64` below `PHASE_ONE`. Samples
//! are Q16 amplitudes in `[-AMP_ONE, AMP_ONE]`. The sine is a rational
//! approximation that is exact at the four quadrant boundaries; square, saw
//! and triangle are the exact piecewise-linear formulas.

use vstd::prelude::*;
use crate::fixed::AMP_ONE;

verus! {

/// Q32 representation of one full cycle of oscillator phase.
pub const PHASE_ONE: u64 = 0x1_0000_0000;

/// Half a cycle.
pub const PHASE_HALF: u64 = 0x8000_0000;

/// A quarter of a cycle.
pub const PHASE_QUARTER: u64 = 0x4000_0000;

/// Largest wavetable the engine will index.
pub const MAX_WAVETABLE_LEN: usize = 0x100_0000;

/// The waveform kinds an oscillator can produce.
#[derive(Clone, Copy, Debug, PartialEq, Eq, Structural)]
pub enum Waveform {
    Sine,
    Square,
    Saw,
    Triangle,
    WhiteNoise,
    /// Index into the engine's custom wavetables.
    CustomSample(usize),
}

/// A loaded sample buffer lies within full scale and can be indexed safely.
pub open spec fn wavetable_ok(s: Seq<i64>) -> bool {
    &&& s.len() <= MAX_WAVETABLE_LEN
    &&& forall|i: int| 0 <= i < s.len() ==> -AMP_ONE <= #[trigger] s[i] <= AMP_ONE
}

/// Magnitude of the sine approximation over half a cycle, `t` in Q16 cycle
/// halves: 16 t (N - t) / (5 N^2 - 4 t (N - t)), scaled to Q16. Exact at the
/// ends (0) and the midpoint (1).
pub open spec fn spec_sine_mag(t: int) -> int {
    let tu = t * (65536 - t);
    (1048576 * tu) / (21474836480 - 4 * tu)
}

/// The sine value for a Q32 phase.
pub open spec fn spec_sine(p: int) -> int {
    let t = (p % 0x8000_0000) / 32768;
    if p < 0x8000_0000 {
        spec_sine_mag(t)
    } else {
        -spec_sine_mag(t)
    }
}

/// The square value for a Q32 phase against a Q32 pulse-width threshold.
pub open spec fn spec_square(p: int, pulse_width: int) -> int {
    if p < pulse_width {
        AMP_ONE as int
    } else {
        -AMP_ONE as int
    }
}

/// The saw value 2 p - 1 for a Q32 phase, in Q16.
pub open spec fn spec_saw(p: int) -> int {
    p / 32768 - 65536
}

/// The triangle value for a Q32 phase: 4p on [0, 1/4), 2 - 4p on
/// [1/4, 3/4), 4p - 4 on [3/4, 1), in Q16.
pub open spec fn spec_triangle(p: int) -> int {
    if p < 0x4000_0000 {
        p / 16384
    } else if p < 0xC000_0000 {
        131072 - p / 16384
    } else {
        p / 16384 - 262144
    }
}

/// The deterministic noise used for previews: a hash of the phase folded
/// into full scale. Repeatable, unlike the audio-path noise.
pub open spec fn spec_preview_noise(p: int) -> int {
    (p * 15731 + 789221) % 131073 - 65536
}

/// The preview value of a wavetable at a phase: the nearest sample at or
/// below `p * len`, with no interpolation; 0 for an empty table.
pub open spec fn spec_wavetable_nearest(s: Seq<i64>, p: int) -> int {
    if s.len() == 0 {
        0
    } else {
        s[(p * s.len()) / (PHASE_ONE as int)] as int
    }
}

/// Evaluate the sine approximation at a Q32 phase.
pub fn sine(phase: u64) -> (r: i64)
    requires
        phase < PHASE_ONE,
    ensures
        r == spec_sine(phase as int),
        -AMP_ONE <= r <= AMP_ONE,
{
    let rem: u64 = phase % PHASE_HALF;
    let t: u64 = rem / 32768;
    assert(t <= 65535) by {
        vstd::arithmetic::div_mod::lemma_div_is_ordered(rem as int, 0x7fff_ffffu64 as int, 32768);
    }
    assert(t * (65536 - t) <= 0x4000_0000) by (nonlinear_arith)
        requires
            0 <= t <= 65535,
    ;
    let tu: u64 = t * (65536 - t);
    let num: u64 = 1048576 * tu;
    let den: u64 = 21474836480 - 4 * tu;
    let m: u64 = num / den;
    assert(num <= 65536 * den) by (nonlinear_arith)
        requires
            num == 1048576 * tu,
            den == 21474836480 - 4 * tu,
            0 <= tu <= 0x4000_0000,
    ;
    assert(m <= 65536) by {
        vstd::arithmetic::div_mod::lemma_div_is_ordered(num as int, 65536 * den, den as int);
        vstd::arithmetic::div_mod::lemma_div_by_multiple(65536, den as int);
    }
    if phase >= PHASE_HALF {
        -(m as i64)
    } else {
        m as i64
    }
}

/// Evaluate the square wave at a Q32 phase with a Q32 pulse width.
pub fn square(phase: u64, pulse_width: u64) -> (r: i64)
    ensures
        r == spec_square(phase as int, pulse_width as int),
        -AMP_ONE <= r <= AMP_ONE,
{
    if phase < pulse_width {
        AMP_ONE
    } else {
        -AMP_ONE
    }
}

/// Evaluate the saw wave at a Q32 phase.
pub fn saw(phase: u64) -> (r: i64)
    requires
        phase < PHASE_ONE,
    ensures
        r == spec_saw(phase as int),
        -AMP_ONE <= r <= AMP_ONE,
{
    let q: u64 = phase / 32768;
    assert(q <= 131071) by {
        vstd::arithmetic::div_mod::lemma_div_is_ordered(
            phase as int,
            0xffff_ffffu64 as int,
            32768,
        );
    }
    (q as i64) - 65536
}

/// Evaluate the triangle wave at a Q32 phase.
pub fn triangle(phase: u64) -> (r: i64)
    requires
        phase < PHASE_ONE,
    ensures
        r == spec_triangle(phase as int),
        -AMP_ONE <= r <= AMP_ONE,
{
    let q: u64 = phase / 16384;
    assert(q <= 262143) by {
        vstd::arithmetic::div_mod::lemma_div_is_ordered(
            phase as int,
            0xffff_ffffu64 as int,
            16384,
        );
    }
    if phase < PHASE_QUARTER {
        assert(q <= 65535) by {
            vstd::arithmetic::div_mod::lemma_div_is_ordered(
                phase as int,
                0x3fff_ffffu64 as int,
                16384,
            );
        }
        q as i64
    } else if phase < 0xC000_0000 {
        assert(65536 <= q) by {
            vstd::arithmetic::div_mod::lemma_div_is_ordered(
                0x4000_0000u64 as int,
                phase as int,
                16384,
            );
        }
        131072 - (q as i64)
    } else {
        assert(196608 <= q) by {
            vstd::arithmetic::div_mod::lemma_div_is_ordered(
                0xC000_0000u64 as int,
                phase as int,
                16384,
            );
        }
        (q as i64) - 262144
    }
}

/// Evaluate the deterministic preview noise at a Q32 phase.
pub fn preview_noise(phase: u64) -> (r: i64)
    requires
        phase < PHASE_ONE,
    ensures
        r == spec_preview_noise(phase as int),
        -AMP_ONE <= r <= AMP_ONE,
{
    let h: u64 = (phase * 15731 + 789221) % 131073;
    (h as i64) - 65536
}

/// Look up the nearest wavetable sample at a Q32 phase, no interpolation.
pub fn wavetable_nearest(samples: &Vec<i64>, phase: u64) -> (r: i64)
    requires
        phase < PHASE_ONE,
        wavetable_ok(samples@),
    ensures
        r == spec_wavetable_nearest(samples@, phase as int),
        -AMP_ONE <= r <= AMP_ONE,
{
    let len: usize = samples.len();
    if len == 0 {
        return 0;
    }
    assert(phase * (len as u64) <= 0xffff_ffffu64 * 0x100_0000u64) by (nonlinear_arith)
        requires
            phase <= 0xffff_ffffu64,
            0 <= len <= 0x100_0000u64,
    ;
    let pos: u64 = (phase * (len as u64)) / PHASE_ONE;
    assert(pos < len) by {
        assert(phase * len <= 0xffff_ffffu64 * len) by (nonlinear_arith)
            requires
                phase <= 0xffff_ffffu64,
                0 <= len,
        ;
        assert(0xffff_ffffu64 * (len as int) < (PHASE_ONE as int) * (len as int))
            by (nonlinear_arith)
            requires
                len >= 1,
        ;
        vstd::arithmetic::div_mod::lemma_div_is_ordered(
            (phase * len) as int,
            (PHASE_ONE as int) * (len as int) - 1,
            PHASE_ONE as int,
        );
        assert(((PHASE_ONE as int) * (len as int) - 1) / (PHASE_ONE as int) == len - 1) by {
            vstd::arithmetic::div_mod::lemma_fundamental_div_mod_converse(
                (PHASE_ONE as int) * (len as int) - 1,
                PHASE_ONE as int,
                len - 1,
                PHASE_ONE as int - 1,
            );
        }
    }
    samples[pos as usize]
}

/// Evaluate a waveform for previews and visualizations: every kind is a
/// deterministic function of the phase, noise included.
pub open spec fn spec_waveform_preview(w: Waveform, p: int, samples: Option<Seq<i64>>) -> int {
    match w {
        Waveform::Sine => spec_sine(p),
        Waveform::Square => spec_square(p, PHASE_HALF as int),
        Waveform::Saw => spec_saw(p),
        Waveform::Triangle => spec_triangle(p),
        Waveform::WhiteNoise => spec_preview_noise(p),
        Waveform::CustomSample(_) => match samples {
            Option::Some(s) => spec_wavetable_nearest(s, p),
            Option::None => 0,
        },
    }
}

impl Waveform {
    /// Sample this waveform at a Q32 phase for a preview or visualization.
    /// Noise is the repeatable hash, never the audio-path generator, so a
    /// preview can be drawn twice and look the same.
    pub fn sample(&self, phase: u64, custom_samples: Option<&Vec<i64>>) -> (r: i64)
        requires
            phase < PHASE_ONE,
            match custom_samples {
                Option::Some(s) => wavetable_ok(s@),
                Option::None => true,
            },
        ensures
            r == spec_waveform_preview(
                *self,
                phase as int,
                match custom_samples {
                    Option::Some(s) => Option::Some(s@),
                    Option::None => Option::None,
                },
            ),
            -AMP_ONE <= r <= AMP_ONE,
    {
        match self {
            Waveform::Sine => sine(phase),
            Waveform::Square => square(phase, PHASE_HALF),
            Waveform::Saw => saw(phase),
            Waveform::Triangle => triangle(phase),
            Waveform::WhiteNoise => preview_noise(phase),
            Waveform::CustomSample(_) => match custom_samples {
                Option::Some(s) => wavetable_nearest(s, phase),
                Option::None => 0,
            },
        }
    }
}

/// The sine approximation is odd around half a cycle, as the real sine is:
/// the second half of the cycle mirrors the first with its sign flipped.
pub proof fn lemma_sine_half_wave(p: int)
    requires
        0 <= p < PHASE_HALF,
    ensures
        spec_sine(p + PHASE_HALF) == -spec_sine(p),
{
    assert(p % 0x8000_0000 == p) by {
        vstd::arithmetic::div_mod::lemma_small_mod(p as nat, 0x8000_0000);
    }
    assert((p + 0x8000_0000) % 0x8000_0000 == p) by {
        vstd::arithmetic::div_mod::lemma_fundamental_div_mod_converse(
            p + 0x8000_0000,
            0x8000_0000,
            1,
            p,
        );
    }
}

/// The sine approximation hits the exact values of sin(2 pi p) at the four
/// quadrant boundaries: 0, 1, 0, -1 at phases 0, 1/4, 1/2 and 3/4.
pub proof fn lemma_sine_quadrants()
    ensures
        spec_sine(0) == 0,
        spec_sine(PHASE_QUARTER as int) == AMP_ONE,
        spec_sine(PHASE_HALF as int) == 0,
        spec_sine(3 * PHASE_QUARTER as int) == -AMP_ONE,
{
    assert(spec_sine_mag(0) == 0) by {
        assert(0int * (65536 - 0) == 0);
        assert(1048576 * 0int == 0);
        assert(0int / 21474836480 == 0) by {
            vstd::arithmetic::div_mod::lemma_div_of0(21474836480);
        }
    }
    assert(spec_sine_mag(32768) == 65536) by {
        assert(32768int * (65536 - 32768) == 1073741824);
        assert(1048576int * 1073741824 == 1125899906842624);
        assert(21474836480int - 4 * 1073741824 == 17179869184);
        assert(1125899906842624int / 17179869184 == 65536) by {
            vstd::arithmetic::div_mod::lemma_fundamental_div_mod_converse(
                1125899906842624,
                17179869184,
                65536,
                0,
            );
        }
    }
    assert((0int % 0x8000_0000) / 32768 == 0);
    assert((0x4000_0000int % 0x8000_0000) / 32768 == 32768);
    assert((0x8000_0000int % 0x8000_0000) / 32768 == 0);
    assert(((3 * PHASE_QUARTER as int) % 0x8000_0000) / 32768 == 32768);
}

} // verus!

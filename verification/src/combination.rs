//! Merging the three oscillator outputs of a voice into one sample:
//! parallel addition, an FM chain, amplitude modulation, ring modulation,
//! and a waveshaping filter mode.
//!
//! Inputs are already-enveloped Q16 samples within twice full scale. The
//! filter mode shapes with a rational approximation of tanh.

use vstd::prelude::*;
use crate::fixed::{qmul, tdiv, tdiv_exec, tmul, lemma_tmul_bound, lemma_tdiv_ordered_abs};
use crate::oscillator::Oscillator;
use crate::waveform::{
    PHASE_ONE, PHASE_HALF, Waveform, spec_sine, spec_square, spec_saw, spec_triangle, sine, square,
    saw, triangle,
};

verus! {

/// Largest Q16 magnitude an oscillator output handed in may have.
pub const OSC_OUT_MAX: i64 = 131072;

/// Largest Q16 magnitude a combined voice sample may have.
pub const COMBINED_MAX: i64 = 786432;

/// Largest Q16 magnitude of the tanh approximation on inputs within twice
/// full scale.
pub const TANH_MAX: i64 = 151000;

/// How the three oscillator outputs of a voice are merged.
#[derive(Clone, Copy, Debug, PartialEq, Eq, Structural)]
pub enum OscillatorCombinationMode {
    /// Simple addition of all oscillators.
    Parallel,
    /// Oscillator three modulates oscillator two's phase, whose output
    /// modulates oscillator one's phase.
    FM,
    /// Amplitude modulation of the first oscillator by the other two.
    AM,
    /// The product of all three outputs.
    RingMod,
    /// The first oscillator blended with a waveshaped copy of itself,
    /// driven by the other two outputs.
    Filter,
}

/// A phase offset by half an output's amplitude, folded into one cycle.
/// One extra cycle keeps the sum nonnegative before folding.
pub open spec fn spec_fm_phase(phase: int, o: int) -> int {
    (phase + o * 32768 + 0x1_0000_0000) % 0x1_0000_0000
}

/// A waveform re-evaluated at an FM-shifted phase; noise and wavetable
/// kinds fall back to the already-computed output.
pub open spec fn spec_fm_wave(w: Waveform, p: int, fallback: int) -> int {
    match w {
        Waveform::Sine => spec_sine(p),
        Waveform::Square => spec_square(p, PHASE_HALF as int),
        Waveform::Saw => spec_saw(p),
        Waveform::Triangle => spec_triangle(p),
        _ => fallback,
    }
}

/// The rational tanh approximation x (27 + x^2) / (27 + 9 x^2), in Q16.
pub open spec fn spec_tanh(x: int) -> int {
    let x2 = tmul(x, x);
    let num = tmul(x, 1769472 + x2);
    tdiv(num * 65536, 1769472 + 9 * x2)
}

/// The combined sample for each mode, over the three outputs, the first
/// two oscillator slots, and the voice phase.
pub open spec fn spec_combine(
    mode: OscillatorCombinationMode,
    o0: int,
    o1: int,
    o2: int,
    osc0: Oscillator,
    osc1: Oscillator,
    phase: int,
) -> int {
    match mode {
        OscillatorCombinationMode::Parallel => o0 + o1 + o2,
        OscillatorCombinationMode::FM => {
            let p2 = spec_fm_phase(phase, o2);
            let m2 = tmul(spec_fm_wave(osc1.waveform, p2, o1), osc1.volume as int);
            let p1 = spec_fm_phase(phase, m2);
            tmul(spec_fm_wave(osc0.waveform, p1, o0), osc0.volume as int)
        },
        OscillatorCombinationMode::AM => tdiv(tmul(tmul(o0, 65536 + o1), 65536 + o2), 2),
        OscillatorCombinationMode::RingMod => tmul(tmul(o0, o1), o2),
        OscillatorCombinationMode::Filter => {
            let fa = tdiv(o1 + 65536, 2);
            let res = tdiv(o2 + 65536, 2);
            tmul(o0, 65536 - fa) + tmul(tmul(spec_tanh(o0), fa), 65536 + res)
        },
    }
}

/// Fold an FM phase offset into one cycle.
fn fm_phase(phase: u64, o: i64) -> (r: u64)
    requires
        phase < PHASE_ONE,
        -OSC_OUT_MAX <= o <= OSC_OUT_MAX,
    ensures
        r == spec_fm_phase(phase as int, o as int),
        r < PHASE_ONE,
{
    let t: i64 = (phase as i64) + o * 32768 + 0x1_0000_0000i64;
    let r: u64 = (t as u64) % PHASE_ONE;
    r
}

/// Re-evaluate a waveform at an FM-shifted phase.
fn fm_wave(w: &Waveform, p: u64, fallback: i64) -> (r: i64)
    requires
        p < PHASE_ONE,
        -OSC_OUT_MAX <= fallback <= OSC_OUT_MAX,
    ensures
        r == spec_fm_wave(*w, p as int, fallback as int),
        -OSC_OUT_MAX <= r <= OSC_OUT_MAX,
{
    match w {
        Waveform::Sine => sine(p),
        Waveform::Square => square(p, PHASE_HALF),
        Waveform::Saw => saw(p),
        Waveform::Triangle => triangle(p),
        _ => fallback,
    }
}

/// The Q16 tanh approximation of a sample within twice full scale.
pub fn tanh_q(x: i64) -> (r: i64)
    requires
        -OSC_OUT_MAX <= x <= OSC_OUT_MAX,
    ensures
        r == spec_tanh(x as int),
        -TANH_MAX <= r <= TANH_MAX,
{
    let x2: i64 = qmul(x, x);
    proof {
        lemma_tmul_bound(x as int, x as int, 131072, 131072);
        assert(0 <= (x as int) * (x as int)) by (nonlinear_arith);
        vstd::arithmetic::div_mod::lemma_div_pos_is_pos((x as int) * (x as int), 65536);
    }
    let num: i64 = qmul(x, 1769472 + x2);
    proof {
        lemma_tmul_bound(x as int, 1769472 + x2 as int, 131072, 2031616);
    }
    let den: i64 = 1769472 + 9 * x2;
    let wide: i64 = num * 65536;
    let r: i64 = tdiv_exec(wide, den as u64);
    proof {
        lemma_tdiv_ordered_abs(wide as int, 4063232int * 65536int, den as int);
        assert(tdiv(4063232int * 65536int, den as int) <= TANH_MAX) by {
            vstd::arithmetic::div_mod::lemma_div_is_ordered_by_denominator(
                4063232int * 65536int,
                1769472,
                den as int,
            );
        }
    }
    r
}

/// Merge the three already-enveloped oscillator outputs of one voice into
/// a single Q16 sample using the selected topology.
pub fn combine_oscillators(
    osc_outputs: &[i64; 3],
    oscillators: &Vec<Oscillator>,
    mode: &OscillatorCombinationMode,
    phase: u64,
) -> (r: i64)
    requires
        forall|i: int| 0 <= i < 3 ==> -OSC_OUT_MAX <= #[trigger] osc_outputs@[i] <= OSC_OUT_MAX,
        oscillators.len() == 3,
        oscillators@[0].wf(),
        oscillators@[1].wf(),
        phase < PHASE_ONE,
    ensures
        r == spec_combine(
            *mode,
            osc_outputs@[0] as int,
            osc_outputs@[1] as int,
            osc_outputs@[2] as int,
            oscillators@[0],
            oscillators@[1],
            phase as int,
        ),
        -COMBINED_MAX <= r <= COMBINED_MAX,
{
    let o0: i64 = osc_outputs[0];
    let o1: i64 = osc_outputs[1];
    let o2: i64 = osc_outputs[2];
    match mode {
        OscillatorCombinationMode::Parallel => o0 + o1 + o2,
        OscillatorCombinationMode::FM => {
            let p2: u64 = fm_phase(phase, o2);
            let w2: i64 = fm_wave(&oscillators[1].waveform, p2, o1);
            let m2: i64 = qmul(w2, oscillators[1].volume);
            proof {
                lemma_tmul_bound(w2 as int, oscillators@[1].volume as int, 131072, 65536);
            }
            let p1: u64 = fm_phase(phase, m2);
            let w1: i64 = fm_wave(&oscillators[0].waveform, p1, o0);
            let m1: i64 = qmul(w1, oscillators[0].volume);
            proof {
                lemma_tmul_bound(w1 as int, oscillators@[0].volume as int, 131072, 65536);
            }
            m1
        },
        OscillatorCombinationMode::AM => {
            let x: i64 = qmul(o0, 65536 + o1);
            proof {
                lemma_tmul_bound(o0 as int, 65536 + o1 as int, 131072, 196608);
            }
            let y: i64 = qmul(x, 65536 + o2);
            proof {
                lemma_tmul_bound(x as int, 65536 + o2 as int, 393216, 196608);
            }
            let r: i64 = tdiv_exec(y, 2);
            proof {
                lemma_tdiv_ordered_abs(y as int, 1179648, 2);
            }
            r
        },
        OscillatorCombinationMode::RingMod => {
            let x: i64 = qmul(o0, o1);
            proof {
                lemma_tmul_bound(o0 as int, o1 as int, 131072, 131072);
            }
            let y: i64 = qmul(x, o2);
            proof {
                lemma_tmul_bound(x as int, o2 as int, 262144, 131072);
            }
            y
        },
        OscillatorCombinationMode::Filter => {
            let fa: i64 = tdiv_exec(o1 + 65536, 2);
            proof {
                lemma_tdiv_ordered_abs(o1 + 65536int, 196608, 2);
            }
            let res: i64 = tdiv_exec(o2 + 65536, 2);
            proof {
                lemma_tdiv_ordered_abs(o2 + 65536int, 196608, 2);
            }
            let dry: i64 = qmul(o0, 65536 - fa);
            proof {
                lemma_tmul_bound(o0 as int, 65536 - fa as int, 131072, 98304);
            }
            let shaped: i64 = tanh_q(o0);
            let wet1: i64 = qmul(shaped, fa);
            proof {
                lemma_tmul_bound(shaped as int, fa as int, TANH_MAX as int, 98304);
            }
            let wet: i64 = qmul(wet1, 65536 + res);
            proof {
                lemma_tmul_bound(wet1 as int, 65536 + res as int, 226500, 163840);
            }
            dry + wet
        },
    }
}

} // verus!

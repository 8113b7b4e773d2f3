//! One oscillator slot: its configuration, its frequency multiplier from
//! octave shift and detune, and the per-voice processing pipeline that
//! turns a phase into an enveloped, filtered, modulated sample.

use vstd::prelude::*;
use vstd::arithmetic::power2::{pow2, lemma2_to64};
use crate::envelope::{STAGE_TIME_MAX, Envelope, env_params_ok, spec_apply_envelope, apply_envelope};
use crate::filter::{FilterType, spec_filter, apply_filter};
use crate::fixed::{AMP_ONE, qmul, tdiv, tdiv_exec, tmul, lemma_tmul_bound, lemma_tdiv_ordered_abs};
use crate::modulation::{
    LFO_RATE_3, LFO_RATE_4, LFO_RATE_5, LFO_RATE_6, ModulationTarget, spec_lfo_sine, lfo_sine,
};
use crate::note::NoteState;
use crate::tuning::{spec_semitone_ratio, semitone_ratio, shift_up, shift_down};
use crate::waveform::{
    PHASE_ONE, PHASE_HALF, Waveform, wavetable_ok, spec_sine, spec_square, spec_saw,
    spec_triangle, sine, square, saw, triangle,
};

verus! {

/// How many custom wavetables the engine keeps; loading one more evicts
/// the oldest.
pub const MAX_CUSTOM_WAVETABLES: usize = 8;

/// Largest Q16 detune accepted, two octaves in semitones.
pub const DETUNE_MAX: i64 = 1572864;

/// Largest octave shift accepted.
pub const OCTAVE_MAX: i8 = 4;

/// Largest Q16 frequency multiplier an oscillator can produce.
pub const FREQ_MULT_MAX: u64 = 0x50_0000;

/// A sample buffer loaded from disk, played back as a periodic waveform.
pub struct CustomWavetable {
    /// Display name, the file name it was loaded from.
    pub name: String,
    /// Q16 samples, amplitude-normalized at load time.
    pub samples: Vec<i64>,
    /// The source file's sample rate in Hz.
    pub sample_rate: u32,
}

/// Every stored wavetable is indexable and within full scale, and the
/// store is bounded.
pub open spec fn wavetables_ok(wts: Seq<CustomWavetable>) -> bool {
    &&& wts.len() <= MAX_CUSTOM_WAVETABLES
    &&& forall|i: int| 0 <= i < wts.len() ==> wavetable_ok(#[trigger] wts[i].samples@)
}

/// The interpolated value of a wavetable at a Q32 phase: the two nearest
/// samples weighted by the fractional position; 0 for an empty table.
pub open spec fn spec_wavetable_interp(s: Seq<i64>, p: int) -> int {
    if s.len() == 0 {
        0
    } else {
        let pos = p * s.len();
        let idx = pos / (PHASE_ONE as int);
        let frac = pos % (PHASE_ONE as int);
        let next = if idx + 1 < s.len() {
            idx + 1
        } else {
            0
        };
        tdiv(s[idx] * (PHASE_ONE as int - frac) + s[next] * frac, PHASE_ONE as int)
    }
}

/// Linearly interpolate a wavetable at a Q32 phase.
pub fn wavetable_interp(samples: &Vec<i64>, phase: u64) -> (r: i64)
    requires
        phase < PHASE_ONE,
        wavetable_ok(samples@),
    ensures
        r == spec_wavetable_interp(samples@, phase as int),
        -AMP_ONE <= r <= AMP_ONE,
{
    let len: usize = samples.len();
    if len == 0 {
        return 0;
    }
    assert(phase * (len as u64) <= 0xffff_ffffu64 * 0x100_0000u64) by (nonlinear_arith)
        requires
            phase <= 0xffff_ffffu64,
            0 <= len <= 0x100_0000u64,
    ;
    let pos: u64 = phase * (len as u64);
    let idx: u64 = pos / PHASE_ONE;
    let frac: u64 = pos % PHASE_ONE;
    assert(idx < len) by {
        assert(pos < (PHASE_ONE as int) * (len as int)) by (nonlinear_arith)
            requires
                pos == phase * len,
                phase < PHASE_ONE,
                1 <= len,
        ;
        vstd::arithmetic::div_mod::lemma_div_is_ordered(
            pos as int,
            (PHASE_ONE as int) * (len as int) - 1,
            PHASE_ONE as int,
        );
        vstd::arithmetic::div_mod::lemma_fundamental_div_mod_converse(
            (PHASE_ONE as int) * (len as int) - 1,
            PHASE_ONE as int,
            len - 1,
            PHASE_ONE as int - 1,
        );
    }
    let next: u64 = if idx + 1 < (len as u64) {
        idx + 1
    } else {
        0
    };
    let a: i64 = samples[idx as usize];
    let b: i64 = samples[next as usize];
    let wa: i64 = (PHASE_ONE - frac) as i64;
    let wb: i64 = frac as i64;
    assert(-(65536 * wa) <= a * wa <= 65536 * wa) by (nonlinear_arith)
        requires
            -65536 <= a <= 65536,
            0 <= wa,
    ;
    assert(-(65536 * wb) <= b * wb <= 65536 * wb) by (nonlinear_arith)
        requires
            -65536 <= b <= 65536,
            0 <= wb,
    ;
    let num: i64 = a * wa + b * wb;
    let r: i64 = tdiv_exec(num, PHASE_ONE);
    proof {
        lemma_tdiv_ordered_abs(num as int, 65536int * 0x1_0000_0000int, PHASE_ONE as int);
    }
    r
}

/// Uniform audio-path noise across full scale.
///
/// Relies on rand's `Rng::gen_range`: a value sampled uniformly from the
/// given non-empty inclusive range, here `[-AMP_ONE, AMP_ONE]`. Nothing
/// more is assumed of it: two calls may differ.
#[verifier::external_body]
fn random_noise() -> (r: i64)
    ensures
        -AMP_ONE <= r <= AMP_ONE,
{
    rand::Rng::gen_range(&mut rand::thread_rng(), -65536i64..=65536i64)
}

/// One oscillator slot's configuration.
#[derive(Clone, Copy, Debug)]
pub struct Oscillator {
    pub waveform: Waveform,
    /// Q16 output level in [0, 1].
    pub volume: i64,
    /// Q16 detune in semitones.
    pub detune: i64,
    /// Octave shift.
    pub octave: i8,
    /// Q32 seconds of envelope attack.
    pub attack: u64,
    /// Q32 seconds of envelope decay.
    pub decay: u64,
    /// Q16 envelope sustain level.
    pub sustain: i64,
    /// Q32 seconds of envelope release.
    pub release: u64,
    pub filter_type: FilterType,
    /// Q16 normalized cutoff.
    pub filter_cutoff: i64,
    /// Q16 resonance, accepted but unused by the filter heuristic.
    pub filter_resonance: i64,
    /// Q16 modulation depth in [0, 1].
    pub mod_amount: i64,
    pub mod_target: ModulationTarget,
    /// Q16 pitch bend in [-1, 1], stored for front ends.
    pub pitch_bend: i64,
    /// Q16 aftertouch pressure in [0, 1], stored for front ends.
    pub aftertouch: i64,
    /// Q16 channel pressure in [0, 1], stored for front ends.
    pub channel_pressure: i64,
    /// The note a front end has assigned to this slot, if any.
    pub note: Option<u8>,
}

impl Oscillator {
    /// The ranges every stored oscillator keeps.
    pub open spec fn wf(self) -> bool {
        &&& 0 <= self.volume <= AMP_ONE
        &&& -DETUNE_MAX <= self.detune <= DETUNE_MAX
        &&& -OCTAVE_MAX <= self.octave <= OCTAVE_MAX
        &&& env_params_ok(self.attack, self.decay, self.sustain, self.release)
        &&& 0 <= self.filter_cutoff <= AMP_ONE
        &&& 0 <= self.filter_resonance <= AMP_ONE
        &&& 0 <= self.mod_amount <= AMP_ONE
        &&& -AMP_ONE <= self.pitch_bend <= AMP_ONE
        &&& 0 <= self.aftertouch <= AMP_ONE
        &&& 0 <= self.channel_pressure <= AMP_ONE
    }

    /// A sine oscillator at half volume with the default envelope.
    pub fn new() -> (r: Oscillator)
        ensures
            r == Oscillator::spec_default(),
            r.wf(),
    {
        Oscillator {
            waveform: Waveform::Sine,
            volume: 32768,
            detune: 0,
            octave: 0,
            attack: 429496729,
            decay: 858993459,
            sustain: 45875,
            release: 1288490188,
            filter_type: FilterType::Off,
            filter_cutoff: AMP_ONE,
            filter_resonance: 0,
            mod_amount: 0,
            mod_target: ModulationTarget::Off,
            pitch_bend: 0,
            aftertouch: 0,
            channel_pressure: 0,
            note: Option::None,
        }
    }

    /// The slot configuration `new` builds.
    pub open spec fn spec_default() -> Oscillator {
        Oscillator {
            waveform: Waveform::Sine,
            volume: 32768,
            detune: 0,
            octave: 0,
            attack: 429496729,
            decay: 858993459,
            sustain: 45875,
            release: 1288490188,
            filter_type: FilterType::Off,
            filter_cutoff: AMP_ONE as i64,
            filter_resonance: 0,
            mod_amount: 0,
            mod_target: ModulationTarget::Off,
            pitch_bend: 0,
            aftertouch: 0,
            channel_pressure: 0,
            note: Option::None,
        }
    }

    /// The Q16 frequency multiplier 2^octave * 2^(detune / 12).
    pub fn get_frequency_multiplier(&self) -> (r: u64)
        requires
            self.wf(),
        ensures
            r == spec_freq_multiplier(self.octave as int, self.detune as int),
            1 <= r <= FREQ_MULT_MAX,
    {
        freq_multiplier(self.octave, self.detune)
    }

    /// This slot's envelope parameters as one value.
    pub fn get_envelope(&self) -> (r: Envelope)
        ensures
            r.attack == self.attack,
            r.decay == self.decay,
            r.sustain == self.sustain,
            r.release == self.release,
    {
        Envelope {
            attack: self.attack,
            decay: self.decay,
            sustain: self.sustain,
            release: self.release,
        }
    }
}

/// The Q16 ratio 2^(n/12) for a whole semitone offset `n`.
pub open spec fn spec_ratio_at(n: int) -> int {
    let oct = n / 12;
    let sem = n % 12;
    if oct >= 0 {
        spec_semitone_ratio(sem) * pow2(oct as nat)
    } else {
        spec_semitone_ratio(sem) / pow2((-oct) as nat) as int
    }
}

/// The Q16 multiplier 2^octave * 2^(detune/12): the ratio at the whole
/// semitone below, interpolated linearly toward the next semitone by the
/// fractional part of the detune.
pub open spec fn spec_freq_multiplier(octave: int, detune: int) -> int {
    let s = octave * 12 * 65536 + detune;
    let n = s / 65536;
    let f = s % 65536;
    spec_ratio_at(n) + tmul(spec_ratio_at(n + 1) - spec_ratio_at(n), f)
}

/// The Q16 ratio for a whole semitone offset in [-72, 73].
fn ratio_at(n: i64) -> (r: u64)
    requires
        -72 <= n <= 73,
    ensures
        r == spec_ratio_at(n as int),
        1024 <= r <= 0x50_0000,
{
    if n >= 0 {
        let oct: u64 = (n as u64) / 12;
        let sem: u64 = (n as u64) % 12;
        proof {
            vstd::arithmetic::div_mod::lemma_fundamental_div_mod(n as int, 12);
            vstd::arithmetic::div_mod::lemma_div_is_ordered(n as int, 73, 12);
        }
        let base: u64 = semitone_ratio(sem as u8);
        let r = shift_up(base, oct);
        proof {
            lemma2_to64();
            let p = pow2(oct as nat);
            assert(oct <= 6);
            assert(p <= 64);
            assert(oct <= 5 ==> p <= 32);
            assert(oct == 6 ==> sem <= 1);
            assert(oct == 6 ==> p == 64);
            assert(r <= 0x50_0000 && r >= 1024) by (nonlinear_arith)
                requires
                    r == base * p,
                    1 <= p <= 64,
                    p == 64 || p <= 32,
                    65536 <= base <= 123715,
                    p == 64 ==> base <= 69433,
            ;
        }
        r
    } else {
        let k: u64 = (-n) as u64;
        let q: u64 = k / 12;
        let rem: u64 = k % 12;
        let (up, sem): (u64, u64) = if rem == 0 {
            (q, 0)
        } else {
            (q + 1, 12 - rem)
        };
        proof {
            vstd::arithmetic::div_mod::lemma_fundamental_div_mod(k as int, 12);
            vstd::arithmetic::div_mod::lemma_div_is_ordered(k as int, 72, 12);
            vstd::arithmetic::div_mod::lemma_fundamental_div_mod_converse(
                -(k as int),
                12,
                -(up as int),
                sem as int,
            );
        }
        let base: u64 = semitone_ratio(sem as u8);
        let r = shift_down(base, up);
        proof {
            lemma2_to64();
            let p = pow2(up as nat);
            assert(up <= 6);
            assert(p <= 64);
            assert(r >= 1024) by {
                vstd::arithmetic::div_mod::lemma_div_is_ordered_by_denominator(
                    base as int,
                    p as int,
                    64,
                );
                vstd::arithmetic::div_mod::lemma_div_is_ordered(65536, base as int, 64);
            }
        }
        r
    }
}

/// The Q16 frequency multiplier for an octave shift and a Q16 detune.
pub fn freq_multiplier(octave: i8, detune: i64) -> (r: u64)
    requires
        -OCTAVE_MAX <= octave <= OCTAVE_MAX,
        -DETUNE_MAX <= detune <= DETUNE_MAX,
    ensures
        r == spec_freq_multiplier(octave as int, detune as int),
        1 <= r <= FREQ_MULT_MAX,
{
    let s: i64 = (octave as i64) * 12 * 65536 + detune;
    let (n, f): (i64, i64) = if s >= 0 {
        proof {
            vstd::arithmetic::div_mod::lemma_fundamental_div_mod(s as int, 65536);
        }
        ((s as u64 / 65536) as i64, (s as u64 % 65536) as i64)
    } else {
        let m: u64 = (-s) as u64;
        let q: u64 = m / 65536;
        let rem: u64 = m % 65536;
        let (nn, ff): (i64, i64) = if rem == 0 {
            (-(q as i64), 0)
        } else {
            (-(q as i64) - 1, (65536 - rem) as i64)
        };
        proof {
            vstd::arithmetic::div_mod::lemma_fundamental_div_mod(m as int, 65536);
            vstd::arithmetic::div_mod::lemma_div_is_ordered(m as int, 4718592, 65536);
            vstd::arithmetic::div_mod::lemma_fundamental_div_mod_converse(
                s as int,
                65536,
                nn as int,
                ff as int,
            );
        }
        (nn, ff)
    };
    proof {
        vstd::arithmetic::div_mod::lemma_div_is_ordered(s as int, 4718592, 65536);
        if s >= 0 {
        } else {
        }
    }
    assert(-72 <= n <= 72);
    let rn: u64 = ratio_at(n);
    let rn1: u64 = ratio_at(n + 1);
    let diff: i64 = (rn1 as i64) - (rn as i64);
    let step: i64 = qmul(diff, f);
    proof {
        crate::filter::lemma_scale_within(diff as int, f as int);
    }
    let r: i64 = (rn as i64) + step;
    r as u64
}

/// The pitch-modulation factor: 1 plus the pitch LFO level times the
/// modulation depth, 1 when the target is elsewhere.
pub open spec fn spec_freq_factor2(osc: Oscillator, st: int) -> int {
    if osc.mod_target == ModulationTarget::Pitch {
        65536 + tmul(spec_lfo_sine(st, LFO_RATE_5 as int), osc.mod_amount as int)
    } else {
        65536
    }
}

/// The phase an oscillator reads its waveform at: the voice phase scaled
/// by the frequency multiplier and the pitch factor, folded into one cycle.
pub open spec fn spec_mod_phase(phase: int, factor: int, factor2: int) -> int {
    (phase * factor * factor2 / 0x1_0000_0000) % 0x1_0000_0000
}

/// The Q32 pulse-width threshold: half a cycle, swung by 0.4 of the
/// pulse-width LFO times the depth.
pub open spec fn spec_pw_phase(osc: Oscillator, st: int) -> int {
    if osc.mod_target == ModulationTarget::PulseWidth {
        (32768 + tdiv(2 * tmul(spec_lfo_sine(st, LFO_RATE_3 as int), osc.mod_amount as int), 5))
            * 65536
    } else {
        PHASE_HALF as int
    }
}

/// The tremolo factor: 1 plus the volume LFO level times the depth.
pub open spec fn spec_volume_mod(osc: Oscillator, st: int) -> int {
    if osc.mod_target == ModulationTarget::Volume {
        65536 + tmul(spec_lfo_sine(st, LFO_RATE_6 as int), osc.mod_amount as int)
    } else {
        65536
    }
}

/// The swept cutoff: the slot cutoff scaled by 1 plus the cutoff LFO level
/// times the depth.
pub open spec fn spec_cutoff_mod(osc: Oscillator, st: int) -> int {
    if osc.mod_target == ModulationTarget::FilterCutoff {
        tmul(
            osc.filter_cutoff as int,
            65536 + tmul(spec_lfo_sine(st, LFO_RATE_4 as int), osc.mod_amount as int),
        )
    } else {
        osc.filter_cutoff as int
    }
}

/// The oscillator's envelope level, clamped into [0, 1] before it scales
/// the signal, so an outrun decay or release degrades to silence rather
/// than inverting the waveform.
pub open spec fn spec_env_clamped(state: NoteState, t: int, osc: Oscillator) -> int {
    let v = spec_apply_envelope(
        state,
        t,
        osc.attack as int,
        osc.decay as int,
        osc.sustain as int,
        osc.release as int,
    );
    if v < 0 {
        0
    } else if v > 65536 {
        65536
    } else {
        v
    }
}

/// The deterministic waveform value at the modulated phase; noise is not
/// covered here, it is bounded relationally instead.
pub open spec fn spec_osc_wave(
    osc: Oscillator,
    mod_phase: int,
    st: int,
    wts: Seq<CustomWavetable>,
) -> int {
    match osc.waveform {
        Waveform::Sine => spec_sine(mod_phase),
        Waveform::Square => spec_square(mod_phase, spec_pw_phase(osc, st)),
        Waveform::Saw => spec_saw(mod_phase),
        Waveform::Triangle => spec_triangle(mod_phase),
        Waveform::WhiteNoise => 0,
        Waveform::CustomSample(i) => if i < wts.len() {
            spec_wavetable_interp(wts[i as int].samples@, mod_phase)
        } else {
            0
        },
    }
}

/// What the raw waveform value of an oscillator may be: the exact
/// deterministic value, or anything within full scale for noise.
pub open spec fn osc_wave_ok(
    osc: Oscillator,
    phase: int,
    st: int,
    wts: Seq<CustomWavetable>,
    w: int,
) -> bool {
    let mp = spec_mod_phase(
        phase,
        spec_freq_multiplier(osc.octave as int, osc.detune as int),
        spec_freq_factor2(osc, st),
    );
    if osc.waveform == Waveform::WhiteNoise {
        -65536 <= w <= 65536
    } else {
        w == spec_osc_wave(osc, mp, st, wts)
    }
}

/// The filtered, volume-scaled, tremoloed, enveloped output given the raw
/// waveform value `w`.
pub open spec fn spec_osc_scaled(osc: Oscillator, state: NoteState, t: int, st: int, w: int) -> int {
    tmul(
        tmul(
            tmul(spec_filter(osc.filter_type, spec_cutoff_mod(osc, st), w), osc.volume as int),
            spec_volume_mod(osc, st),
        ),
        spec_env_clamped(state, t, osc),
    )
}

/// What an oscillator's output may be: silence for a muted slot, otherwise
/// the scaled pipeline applied to an admissible raw waveform value.
pub open spec fn osc_output_ok(
    osc: Oscillator,
    phase: int,
    state: NoteState,
    t: int,
    st: int,
    wts: Seq<CustomWavetable>,
    r: int,
) -> bool {
    if osc.volume <= 0 {
        r == 0
    } else {
        exists|w: int| osc_wave_ok(osc, phase, st, wts, w) && r == spec_osc_scaled(osc, state, t, st, w)
    }
}


/// The pitch-modulation factor of a slot at a sample time.
fn pitch_factor2(oscillator: &Oscillator, sample_time: u64) -> (r: i64)
    requires
        oscillator.wf(),
    ensures
        r == spec_freq_factor2(*oscillator, sample_time as int),
        0 <= r <= 131072,
{
    if let ModulationTarget::Pitch = oscillator.mod_target {
        let lfo: i64 = lfo_sine(sample_time, LFO_RATE_5);
        let swing: i64 = qmul(lfo, oscillator.mod_amount);
        proof {
            lemma_tmul_bound(lfo as int, oscillator.mod_amount as int, 65536, 65536);
        }
        65536 + swing
    } else {
        65536
    }
}

/// The phase a slot reads its waveform at, for a voice phase.
fn mod_phase_of(oscillator: &Oscillator, phase: u64, sample_time: u64) -> (r: u64)
    requires
        oscillator.wf(),
        phase < PHASE_ONE,
    ensures
        r == spec_mod_phase(
            phase as int,
            spec_freq_multiplier(oscillator.octave as int, oscillator.detune as int),
            spec_freq_factor2(*oscillator, sample_time as int),
        ),
        r < PHASE_ONE,
{
    let factor: u64 = oscillator.get_frequency_multiplier();
    let factor2: i64 = pitch_factor2(oscillator, sample_time);
    assert(phase * factor <= 0xffff_ffffu64 * 0x50_0000u64) by (nonlinear_arith)
        requires
            phase <= 0xffff_ffffu64,
            0 <= factor <= 0x50_0000u64,
    ;
    let wide: u64 = phase * factor;
    assert((wide as int) * (factor2 as int) <= 0x50_0000_0000_0000int * 131072int)
        by (nonlinear_arith)
        requires
            0 <= wide <= 0x50_0000_0000_0000u64,
            0 <= factor2 <= 131072,
    ;
    let wide2: u128 = (wide as u128) * (factor2 as u128);
    let mod_phase: u64 = ((wide2 / 0x1_0000_0000) % 0x1_0000_0000) as u64;
    mod_phase
}

/// The Q32 pulse-width threshold of a slot at a sample time.
fn pw_phase_of(oscillator: &Oscillator, sample_time: u64) -> (r: u64)
    requires
        oscillator.wf(),
    ensures
        r == spec_pw_phase(*oscillator, sample_time as int),
        r <= PHASE_ONE,
{
    if let ModulationTarget::PulseWidth = oscillator.mod_target {
        let lfo: i64 = lfo_sine(sample_time, LFO_RATE_3);
        let swing: i64 = qmul(lfo, oscillator.mod_amount);
        proof {
            lemma_tmul_bound(lfo as int, oscillator.mod_amount as int, 65536, 65536);
        }
        let offset: i64 = tdiv_exec(2 * swing, 5);
        proof {
            lemma_tdiv_ordered_abs(2 * swing as int, 131072, 5);
        }
        ((32768 + offset) as u64) * 65536
    } else {
        PHASE_HALF
    }
}

/// The swept cutoff of a slot at a sample time.
fn cutoff_mod_of(oscillator: &Oscillator, sample_time: u64) -> (r: i64)
    requires
        oscillator.wf(),
    ensures
        r == spec_cutoff_mod(*oscillator, sample_time as int),
        -131072 <= r <= 131072,
{
    if let ModulationTarget::FilterCutoff = oscillator.mod_target {
        let lfo: i64 = lfo_sine(sample_time, LFO_RATE_4);
        let swing: i64 = qmul(lfo, oscillator.mod_amount);
        proof {
            lemma_tmul_bound(lfo as int, oscillator.mod_amount as int, 65536, 65536);
        }
        let c = qmul(oscillator.filter_cutoff, 65536 + swing);
        proof {
            lemma_tmul_bound(
                oscillator.filter_cutoff as int,
                65536 + tmul(
                    spec_lfo_sine(sample_time as int, LFO_RATE_4 as int),
                    oscillator.mod_amount as int,
                ),
                65536,
                131072,
            );
        }
        c
    } else {
        oscillator.filter_cutoff
    }
}

/// The tremolo factor of a slot at a sample time.
fn volume_mod_of(oscillator: &Oscillator, sample_time: u64) -> (r: i64)
    requires
        oscillator.wf(),
    ensures
        r == spec_volume_mod(*oscillator, sample_time as int),
        0 <= r <= 131072,
{
    if let ModulationTarget::Volume = oscillator.mod_target {
        let lfo: i64 = lfo_sine(sample_time, LFO_RATE_6);
        let swing: i64 = qmul(lfo, oscillator.mod_amount);
        proof {
            lemma_tmul_bound(lfo as int, oscillator.mod_amount as int, 65536, 65536);
        }
        65536 + swing
    } else {
        65536
    }
}

/// The raw waveform value of a slot at a modulated phase: exact for the
/// deterministic kinds, fresh audio noise for white noise.
fn osc_wave_value(
    oscillator: &Oscillator,
    mod_phase: u64,
    sample_time: u64,
    custom_wavetables: &Vec<CustomWavetable>,
) -> (r: i64)
    requires
        oscillator.wf(),
        mod_phase < PHASE_ONE,
        wavetables_ok(custom_wavetables@),
    ensures
        oscillator.waveform != Waveform::WhiteNoise ==> r == spec_osc_wave(
            *oscillator,
            mod_phase as int,
            sample_time as int,
            custom_wavetables@,
        ),
        -AMP_ONE <= r <= AMP_ONE,
{
    match &oscillator.waveform {
        Waveform::Sine => sine(mod_phase),
        Waveform::Square => {
            let pw_phase: u64 = pw_phase_of(oscillator, sample_time);
            square(mod_phase, pw_phase)
        },
        Waveform::Saw => saw(mod_phase),
        Waveform::Triangle => triangle(mod_phase),
        Waveform::WhiteNoise => random_noise(),
        Waveform::CustomSample(index) => {
            if *index < custom_wavetables.len() {
                wavetable_interp(&custom_wavetables[*index].samples, mod_phase)
            } else {
                0
            }
        },
    }
}

/// The envelope level of a voice under this slot's envelope times, clamped
/// into [0, 1].
fn env_clamped_of(oscillator: &Oscillator, note_state: NoteState, time_in_state: u64) -> (r: i64)
    requires
        oscillator.wf(),
        time_in_state <= STAGE_TIME_MAX,
    ensures
        r == spec_env_clamped(note_state, time_in_state as int, *oscillator),
        0 <= r <= AMP_ONE,
{
    let env_raw: i64 = apply_envelope(
        note_state,
        time_in_state,
        oscillator.attack,
        oscillator.decay,
        oscillator.sustain,
        oscillator.release,
    );
    if env_raw < 0 {
        0
    } else {
        env_raw
    }
}

/// Render one oscillator's contribution for a voice: waveform value at the
/// modulated phase, filtered under the (possibly swept) cutoff, scaled by
/// slot volume, tremolo and the voice's envelope stage under this slot's
/// envelope times.
pub fn process_oscillator(
    oscillator: &Oscillator,
    phase: u64,
    sample_time: u64,
    custom_wavetables: &Vec<CustomWavetable>,
    note_state: NoteState,
    time_in_state: u64,
) -> (r: i64)
    requires
        oscillator.wf(),
        phase < PHASE_ONE,
        time_in_state <= STAGE_TIME_MAX,
        wavetables_ok(custom_wavetables@),
    ensures
        osc_output_ok(
            *oscillator,
            phase as int,
            note_state,
            time_in_state as int,
            sample_time as int,
            custom_wavetables@,
            r as int,
        ),
        -131072 <= r <= 131072,
{
    if oscillator.volume <= 0 {
        return 0;
    }
    let mod_phase: u64 = mod_phase_of(oscillator, phase, sample_time);
    let waveform_value: i64 = osc_wave_value(
        oscillator,
        mod_phase,
        sample_time,
        custom_wavetables,
    );
    assert(osc_wave_ok(
        *oscillator,
        phase as int,
        sample_time as int,
        custom_wavetables@,
        waveform_value as int,
    ));
    let cutoff_mod: i64 = cutoff_mod_of(oscillator, sample_time);
    let filtered: i64 = apply_filter(waveform_value, &oscillator.filter_type, cutoff_mod);
    let volume_mod: i64 = volume_mod_of(oscillator, sample_time);
    let env: i64 = env_clamped_of(oscillator, note_state, time_in_state);
    let x1: i64 = qmul(filtered, oscillator.volume);
    proof {
        lemma_tmul_bound(filtered as int, oscillator.volume as int, 65536, 65536);
    }
    let x2: i64 = qmul(x1, volume_mod);
    proof {
        lemma_tmul_bound(x1 as int, volume_mod as int, 65536, 131072);
    }
    let out: i64 = qmul(x2, env);
    proof {
        lemma_tmul_bound(x2 as int, env as int, 131072, 65536);
        let ghost w = waveform_value as int;
        assert(out == spec_osc_scaled(
            *oscillator,
            note_state,
            time_in_state as int,
            sample_time as int,
            w,
        ));
        assert(osc_output_ok(
            *oscillator,
            phase as int,
            note_state,
            time_in_state as int,
            sample_time as int,
            custom_wavetables@,
            out as int,
        )) by {
            assert(osc_wave_ok(
                *oscillator,
                phase as int,
                sample_time as int,
                custom_wavetables@,
                w,
            ) && out == spec_osc_scaled(
                *oscillator,
                note_state,
                time_in_state as int,
                sample_time as int,
                w,
            ));
        }
    }
    out
}

} // verus!

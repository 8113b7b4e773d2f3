//! Visualization: deterministic previews of waveforms, the combined
//! wavetable of the three slots, a placeholder spectrum curve, and
//! per-pitch waveform lines. Every point here is a repeatable function of
//! the engine state, never of the audio-path noise.

use vstd::prelude::*;
use crate::combination::{OscillatorCombinationMode, spec_combine, combine_oscillators};
use crate::envelope::spec_apply_envelope;
use crate::fixed::{AMP_ONE, qmul, tdiv, tdiv_exec, tmul, lemma_tmul_bound,
    lemma_tdiv_ordered_abs};
use crate::note::{Note, NoteState};
use crate::oscillator::{Oscillator, CustomWavetable, wavetables_ok, spec_freq_multiplier,
    freq_multiplier, FREQ_MULT_MAX};
use crate::synth::Synth;
use crate::waveform::{PHASE_ONE, Waveform, spec_waveform_preview};

verus! {

/// How many points a single-waveform preview holds.
pub const PREVIEW_POINTS: usize = 100;

/// How many points the combined wavetable display holds.
pub const DISPLAY_POINTS: usize = 200;

/// How many points the spectrum display holds.
pub const SPECTRUM_POINTS: usize = 128;

/// The wavetable a waveform previews from, if it names a loaded one.
pub open spec fn spec_preview_samples(w: Waveform, wts: Seq<CustomWavetable>) -> Option<Seq<i64>> {
    match w {
        Waveform::CustomSample(idx) => if idx < wts.len() {
            Option::Some(wts[idx as int].samples@)
        } else {
            Option::None
        },
        _ => Option::None,
    }
}

/// A phase scaled by a Q16 factor and folded into one cycle.
pub open spec fn spec_scaled_phase(phase: int, factor: int) -> int {
    (phase * factor / 65536) % 0x1_0000_0000
}

/// The preview value of a waveform at point `i`: the evenly spaced phase,
/// detuned by the slot's octave and detune, read through the preview path.
pub open spec fn spec_preview_value(
    w: Waveform,
    detune: int,
    octave: int,
    wts: Seq<CustomWavetable>,
    i: int,
) -> int {
    let phase = i * 0x1_0000_0000 / 100;
    let mp = spec_scaled_phase(phase, spec_freq_multiplier(octave, detune));
    spec_waveform_preview(w, mp, spec_preview_samples(w, wts))
}

/// Fold a preview phase through a Q16 frequency factor.
fn scaled_phase(phase: u64, factor: u64) -> (r: u64)
    requires
        phase < PHASE_ONE,
        factor <= FREQ_MULT_MAX,
    ensures
        r == spec_scaled_phase(phase as int, factor as int),
        r < PHASE_ONE,
{
    assert(phase * factor <= 0xffff_ffffu64 * 0x50_0000u64) by (nonlinear_arith)
        requires
            phase <= 0xffff_ffffu64,
            0 <= factor <= 0x50_0000u64,
    ;
    ((phase * factor) / 65536) % PHASE_ONE
}

/// The waveform a slot would draw over one cycle: `PREVIEW_POINTS` evenly
/// spaced phases through the slot's detune and octave, each paired with
/// its Q16 x position.
pub fn generate_waveform_preview(
    waveform: &Waveform,
    detune: i64,
    octave: i8,
    custom_wavetables: &Vec<CustomWavetable>,
) -> (r: Vec<(i64, i64)>)
    requires
        -crate::oscillator::DETUNE_MAX <= detune <= crate::oscillator::DETUNE_MAX,
        -crate::oscillator::OCTAVE_MAX <= octave <= crate::oscillator::OCTAVE_MAX,
        wavetables_ok(custom_wavetables@),
    ensures
        r@.len() == PREVIEW_POINTS,
        forall|i: int|
            0 <= i < PREVIEW_POINTS ==> (#[trigger] r@[i]).0 == i * 65536 / 100 && r@[i].1
                == spec_preview_value(
                *waveform,
                detune as int,
                octave as int,
                custom_wavetables@,
                i,
            ),
{
    let factor: u64 = freq_multiplier(octave, detune);
    let mut points: Vec<(i64, i64)> = Vec::new();
    let mut i: usize = 0;
    while i < PREVIEW_POINTS
        invariant
            i <= PREVIEW_POINTS,
            points@.len() == i,
            factor == spec_freq_multiplier(octave as int, detune as int),
            factor <= FREQ_MULT_MAX,
            wavetables_ok(custom_wavetables@),
            forall|j: int|
                0 <= j < i ==> (#[trigger] points@[j]).0 == j * 65536 / 100 && points@[j].1
                    == spec_preview_value(
                    *waveform,
                    detune as int,
                    octave as int,
                    custom_wavetables@,
                    j,
                ),
        decreases PREVIEW_POINTS - i,
    {
        let phase: u64 = ((i as u64) * PHASE_ONE) / 100;
        assert(phase < PHASE_ONE) by {
            vstd::arithmetic::div_mod::lemma_div_is_ordered(
                (i as u64 * PHASE_ONE) as int,
                100int * (PHASE_ONE as int) - 1,
                100,
            );
            vstd::arithmetic::div_mod::lemma_fundamental_div_mod_converse(
                100int * (PHASE_ONE as int) - 1,
                100,
                PHASE_ONE as int - 1,
                99,
            );
        }
        let mp: u64 = scaled_phase(phase, factor);
        let selected: Option<&Vec<i64>> = match waveform {
            Waveform::CustomSample(idx) => {
                if *idx < custom_wavetables.len() {
                    Option::Some(&custom_wavetables[*idx].samples)
                } else {
                    Option::None
                }
            },
            _ => Option::None,
        };
        let value: i64 = waveform.sample(mp, selected);
        let x: i64 = (((i as u64) * 65536) / 100) as i64;
        points.push((x, value));
        i = i + 1;
    }
    points
}

/// What one slot contributes to the wavetable display at a phase: its
/// preview value at the detuned phase, scaled by its volume; a muted slot
/// contributes silence.
pub open spec fn spec_display_osc_sample(
    osc: Oscillator,
    wts: Seq<CustomWavetable>,
    phase: int,
) -> int {
    if osc.volume <= 0 {
        0
    } else {
        let mp = spec_scaled_phase(phase, spec_freq_multiplier(0, osc.detune as int));
        tmul(
            spec_waveform_preview(osc.waveform, mp, spec_preview_samples(osc.waveform, wts)),
            osc.volume as int,
        )
    }
}

/// One slot's display contribution at a phase.
fn display_osc_sample(osc: &Oscillator, wts: &Vec<CustomWavetable>, phase: u64) -> (r: i64)
    requires
        osc.wf(),
        wavetables_ok(wts@),
        phase < PHASE_ONE,
    ensures
        r == spec_display_osc_sample(*osc, wts@, phase as int),
        -AMP_ONE <= r <= AMP_ONE,
{
    if osc.volume <= 0 {
        return 0;
    }
    let factor: u64 = freq_multiplier(0, osc.detune);
    let mp: u64 = scaled_phase(phase, factor);
    let selected: Option<&Vec<i64>> = match &osc.waveform {
        Waveform::CustomSample(idx) => {
            if *idx < wts.len() {
                Option::Some(&wts[*idx].samples)
            } else {
                Option::None
            }
        },
        _ => Option::None,
    };
    let value: i64 = osc.waveform.sample(mp, selected);
    let out: i64 = qmul(value, osc.volume);
    proof {
        lemma_tmul_bound(value as int, osc.volume as int, 65536, 65536);
    }
    out
}

/// The combined waveform the three slots would draw over one cycle:
/// `DISPLAY_POINTS` evenly spaced phases, each slot previewed at its
/// detuned phase and scaled by its volume, merged by the combination mode.
pub fn generate_wavetable_display(
    oscillators: &Vec<Oscillator>,
    oscillator_combination_mode: &OscillatorCombinationMode,
    custom_wavetables: &Vec<CustomWavetable>,
) -> (r: Vec<(i64, i64)>)
    requires
        oscillators.len() == 3,
        forall|i: int| 0 <= i < 3 ==> (#[trigger] oscillators@[i]).wf(),
        wavetables_ok(custom_wavetables@),
    ensures
        r@.len() == DISPLAY_POINTS,
        forall|i: int|
            0 <= i < DISPLAY_POINTS ==> (#[trigger] r@[i]).0 == i * 65536 / 200 && r@[i].1
                == ({
                let phase = i * 0x1_0000_0000 / 200;
                spec_combine(
                    *oscillator_combination_mode,
                    spec_display_osc_sample(oscillators@[0], custom_wavetables@, phase),
                    spec_display_osc_sample(oscillators@[1], custom_wavetables@, phase),
                    spec_display_osc_sample(oscillators@[2], custom_wavetables@, phase),
                    oscillators@[0],
                    oscillators@[1],
                    phase,
                )
            }),
{
    let mut points: Vec<(i64, i64)> = Vec::new();
    let mut i: usize = 0;
    while i < DISPLAY_POINTS
        invariant
            i <= DISPLAY_POINTS,
            points@.len() == i,
            oscillators.len() == 3,
            forall|k: int| 0 <= k < 3 ==> (#[trigger] oscillators@[k]).wf(),
            wavetables_ok(custom_wavetables@),
            forall|j: int|
                0 <= j < i ==> (#[trigger] points@[j]).0 == j * 65536 / 200 && points@[j].1 == ({
                    let phase = j * 0x1_0000_0000 / 200;
                    spec_combine(
                        *oscillator_combination_mode,
                        spec_display_osc_sample(oscillators@[0], custom_wavetables@, phase),
                        spec_display_osc_sample(oscillators@[1], custom_wavetables@, phase),
                        spec_display_osc_sample(oscillators@[2], custom_wavetables@, phase),
                        oscillators@[0],
                        oscillators@[1],
                        phase,
                    )
                }),
        decreases DISPLAY_POINTS - i,
    {
        let phase: u64 = ((i as u64) * PHASE_ONE) / 200;
        assert(phase < PHASE_ONE) by {
            vstd::arithmetic::div_mod::lemma_div_is_ordered(
                (i as u64 * PHASE_ONE) as int,
                200int * (PHASE_ONE as int) - 1,
                200,
            );
            vstd::arithmetic::div_mod::lemma_fundamental_div_mod_converse(
                200int * (PHASE_ONE as int) - 1,
                200,
                PHASE_ONE as int - 1,
                199,
            );
        }
        let s0: i64 = display_osc_sample(&oscillators[0], custom_wavetables, phase);
        let s1: i64 = display_osc_sample(&oscillators[1], custom_wavetables, phase);
        let s2: i64 = display_osc_sample(&oscillators[2], custom_wavetables, phase);
        let osc_samples: [i64; 3] = [s0, s1, s2];
        let value: i64 = combine_oscillators(
            &osc_samples,
            oscillators,
            oscillator_combination_mode,
            phase,
        );
        let x: i64 = (((i as u64) * 65536) / 200) as i64;
        points.push((x, value));
        i = i + 1;
    }
    points
}

/// The placeholder spectrum curve: frequency positions across half the
/// sample rate, with a rising square-law magnitude. A stand-in until a
/// real transform feeds it.
pub fn generate_spectrum_display(_samples: &Vec<i64>, sample_rate: u32) -> (r: Vec<(i64, i64)>)
    ensures
        r@.len() == SPECTRUM_POINTS,
        forall|i: int|
            0 <= i < SPECTRUM_POINTS ==> (#[trigger] r@[i]).0 == i * (sample_rate as int) * 256
                && r@[i].1 == tdiv(tmul(i * 512, i * 512), 2),
{
    let mut points: Vec<(i64, i64)> = Vec::new();
    let mut i: usize = 0;
    while i < SPECTRUM_POINTS
        invariant
            i <= SPECTRUM_POINTS,
            points@.len() == i,
            forall|j: int|
                0 <= j < i ==> (#[trigger] points@[j]).0 == j * (sample_rate as int) * 256
                    && points@[j].1 == tdiv(tmul(j * 512, j * 512), 2),
        decreases SPECTRUM_POINTS - i,
    {
        assert((i as u64) * (sample_rate as u64) <= 127 * 0xffff_ffffu64) by (nonlinear_arith)
            requires
                i <= 127,
                sample_rate <= 0xffff_ffffu64,
        ;
        let freq: i64 = (((i as u64) * (sample_rate as u64)) * 256) as i64;
        let x: i64 = (i as i64) * 512;
        let sq: i64 = qmul(x, x);
        proof {
            lemma_tmul_bound(x as int, x as int, 65024, 65024);
        }
        let mag: i64 = tdiv_exec(sq, 2);
        proof {
            lemma_tdiv_ordered_abs(sq as int, 64528, 2);
        }
        points.push((freq, mag));
        i = i + 1;
    }
    points
}

/// The first sounding voice of a note, if one sounds.
pub open spec fn spec_find_note(s: Seq<Note>, note: u8) -> Option<Note>
    decreases s.len(),
{
    if s.len() == 0 {
        Option::None
    } else if s[0].midi_note == note {
        Option::Some(s[0])
    } else {
        spec_find_note(s.drop_first(), note)
    }
}

/// Find the first sounding voice of a note.
fn find_note(notes: &Vec<Note>, note: u8) -> (r: Option<Note>)
    ensures
        r == spec_find_note(notes@, note),
{
    let n: usize = notes.len();
    proof {
        assert(notes@.subrange(0, n as int) =~= notes@);
    }
    let mut i: usize = 0;
    while i < n
        invariant
            i <= n,
            n == notes@.len(),
            spec_find_note(notes@.subrange(i as int, n as int), note) == spec_find_note(
                notes@,
                note,
            ),
        decreases n - i,
    {
        proof {
            assert(notes@.subrange(i as int, n as int).drop_first() =~= notes@.subrange(
                i + 1,
                n as int,
            ));
            assert(notes@.subrange(i as int, n as int)[0] == notes@[i as int]);
        }
        if notes[i].midi_note == note {
            return Option::Some(notes[i]);
        }
        i = i + 1;
    }
    proof {
        assert(notes@.subrange(n as int, n as int) =~= Seq::<Note>::empty());
    }
    Option::None
}

/// The modulation a pitch line's point gets: the sounding voice's clamped
/// master-envelope level and velocity, or a fixed low level for a pitch
/// not being played.
pub open spec fn spec_pitch_point_value(
    wave: int,
    found: Option<Note>,
    attack: int,
    decay: int,
    sustain: int,
    release: int,
) -> int {
    match found {
        Option::Some(v) => {
            let env = spec_env_of(v.state, v.time_in_state as int, attack, decay, sustain, release);
            tmul(tmul(wave, env), v.velocity as int)
        },
        Option::None => tmul(wave, 19661),
    }
}

/// The clamped master-envelope level at a stage and time.
pub open spec fn spec_env_of(
    state: NoteState,
    t: int,
    attack: int,
    decay: int,
    sustain: int,
    release: int,
) -> int {
    let v = spec_apply_envelope(state, t, attack, decay, sustain, release);
    if v < 0 {
        0
    } else if v > 65536 {
        65536
    } else {
        v
    }
}

impl Synth {
    /// Decimate the analyzer ring into waveform display points.
    pub fn generate_waveform_display(&self) -> (r: Vec<(i64, i64)>)
        requires
            self.wf(),
        ensures
            r@.len() == crate::analyzer::WAVEFORM_DISPLAY_POINTS,
            forall|i: int|
                0 <= i < crate::analyzer::WAVEFORM_DISPLAY_POINTS ==> (#[trigger] r@[i]).0
                    == crate::analyzer::spec_display_point(
                    self.analyzer.current_waveform_samples@,
                    i,
                ).0 && r@[i].1 == crate::analyzer::spec_display_point(
                    self.analyzer.current_waveform_samples@,
                    i,
                ).1,
    {
        crate::analyzer::waveform_display_points(&self.analyzer.current_waveform_samples)
    }

    /// The combined wavetable of this engine's slots.
    pub fn generate_wavetable_display(&self) -> (r: Vec<(i64, i64)>)
        requires
            self.wf(),
        ensures
            r@.len() == DISPLAY_POINTS,
            forall|i: int|
                0 <= i < DISPLAY_POINTS ==> (#[trigger] r@[i]).0 == i * 65536 / 200 && r@[i].1
                    == ({
                    let phase = i * 0x1_0000_0000 / 200;
                    spec_combine(
                        self.oscillator_combination_mode,
                        spec_display_osc_sample(self.oscillators@[0], self.custom_wavetables@, phase),
                        spec_display_osc_sample(self.oscillators@[1], self.custom_wavetables@, phase),
                        spec_display_osc_sample(self.oscillators@[2], self.custom_wavetables@, phase),
                        self.oscillators@[0],
                        self.oscillators@[1],
                        phase,
                    )
                }),
    {
        generate_wavetable_display(
            &self.oscillators,
            &self.oscillator_combination_mode,
            &self.custom_wavetables,
        )
    }

    /// One waveform line per pitch class around middle C: the first slot's
    /// waveform over one cycle, scaled by the sounding voice's envelope
    /// and velocity where that pitch is held, and drawn faintly where not.
    pub fn generate_pitch_wavetable(&self) -> (r: Vec<Vec<(i64, i64)>>)
        requires
            self.wf(),
        ensures
            r@.len() == 12,
            forall|pc: int| 0 <= pc < 12 ==> (#[trigger] r@[pc])@.len() == 64,
            forall|pc: int, i: int|
                0 <= pc < 12 && 0 <= i < 64 ==> (#[trigger] r@[pc]@[i]).0 == i * 1024
                    && r@[pc]@[i].1 == ({
                    let phase = i * 0x400_0000;
                    let wave = spec_waveform_preview(
                        self.oscillators@[0].waveform,
                        phase,
                        spec_preview_samples(
                            self.oscillators@[0].waveform,
                            self.custom_wavetables@,
                        ),
                    );
                    spec_pitch_point_value(
                        wave,
                        spec_find_note(self.active_notes@, (60 + pc) as u8),
                        self.attack as int,
                        self.decay as int,
                        self.sustain as int,
                        self.release as int,
                    )
                }),
    {
        let mut lines: Vec<Vec<(i64, i64)>> = Vec::new();
        let mut pc: usize = 0;
        while pc < 12
            invariant
                pc <= 12,
                lines@.len() == pc,
                self.wf(),
                forall|p: int| 0 <= p < pc ==> (#[trigger] lines@[p])@.len() == 64,
                forall|p: int, i: int|
                    0 <= p < pc && 0 <= i < 64 ==> (#[trigger] lines@[p]@[i]).0 == i * 1024
                        && lines@[p]@[i].1 == ({
                        let phase = i * 0x400_0000;
                        let wave = spec_waveform_preview(
                            self.oscillators@[0].waveform,
                            phase,
                            spec_preview_samples(
                                self.oscillators@[0].waveform,
                                self.custom_wavetables@,
                            ),
                        );
                        spec_pitch_point_value(
                            wave,
                            spec_find_note(self.active_notes@, (60 + p) as u8),
                            self.attack as int,
                            self.decay as int,
                            self.sustain as int,
                            self.release as int,
                        )
                    }),
            decreases 12 - pc,
        {
            let midi_note: u8 = (60 + pc) as u8;
            let found: Option<Note> = find_note(&self.active_notes, midi_note);
            let mut points: Vec<(i64, i64)> = Vec::new();
            let mut i: usize = 0;
            while i < 64
                invariant
                    i <= 64,
                    points@.len() == i,
                    self.wf(),
                    midi_note == 60 + pc,
                    pc < 12,
                    found == spec_find_note(self.active_notes@, midi_note),
                    forall|j: int|
                        0 <= j < i ==> (#[trigger] points@[j]).0 == j * 1024 && points@[j].1 == ({
                            let phase = j * 0x400_0000;
                            let wave = spec_waveform_preview(
                                self.oscillators@[0].waveform,
                                phase,
                                spec_preview_samples(
                                    self.oscillators@[0].waveform,
                                    self.custom_wavetables@,
                                ),
                            );
                            spec_pitch_point_value(
                                wave,
                                found,
                                self.attack as int,
                                self.decay as int,
                                self.sustain as int,
                                self.release as int,
                            )
                        }),
                decreases 64 - i,
            {
                let phase: u64 = (i as u64) * 0x400_0000;
                let selected: Option<&Vec<i64>> = match &self.oscillators[0].waveform {
                    Waveform::CustomSample(idx) => {
                        if *idx < self.custom_wavetables.len() {
                            Option::Some(&self.custom_wavetables[*idx].samples)
                        } else {
                            Option::None
                        }
                    },
                    _ => Option::None,
                };
                let wave: i64 = self.oscillators[0].waveform.sample(phase, selected);
                let value: i64 = match &found {
                    Option::Some(v) => {
                        proof {
                            lemma_find_note_wf(self.active_notes@, midi_note);
                        }
                        let env_raw: i64 = crate::envelope::apply_envelope(
                            v.state,
                            v.time_in_state,
                            self.attack,
                            self.decay,
                            self.sustain,
                            self.release,
                        );
                        let env: i64 = if env_raw < 0 {
                            0
                        } else {
                            env_raw
                        };
                        let we: i64 = qmul(wave, env);
                        proof {
                            lemma_tmul_bound(wave as int, env as int, 65536, 65536);
                        }
                        let out = qmul(we, v.velocity);
                        proof {
                            lemma_tmul_bound(we as int, v.velocity as int, 65536, 65536);
                        }
                        out
                    },
                    Option::None => qmul(wave, 19661),
                };
                points.push(((i as i64) * 1024, value));
                i = i + 1;
            }
            lines.push(points);
            pc = pc + 1;
        }
        lines
    }
}

/// A found voice comes from the list, so it keeps the list's ranges.
pub proof fn lemma_find_note_wf(s: Seq<Note>, note: u8)
    requires
        crate::synth::notes_wf(s),
    ensures
        match spec_find_note(s, note) {
            Option::Some(v) => v.wf(),
            Option::None => true,
        },
    decreases s.len(),
{
    if s.len() > 0 {
        if s[0].midi_note != note {
            assert(crate::synth::notes_wf(s.drop_first())) by {
                assert(forall|i: int|
                    0 <= i < s.drop_first().len() ==> s.drop_first()[i] == s[i + 1]);
            }
            lemma_find_note_wf(s.drop_first(), note);
        }
    }
}

} // verus!

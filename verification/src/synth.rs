//! The synthesizer engine: three oscillator slots, a master envelope and
//! filter, the list of sounding voices, the wavetable store and the
//! analyzer ring, with note lifecycle and per-sample rendering.

use vstd::prelude::*;
use crate::analyzer::{Analyzer, spec_ring_push};
use crate::combination::{OscillatorCombinationMode, COMBINED_MAX, spec_combine,
    combine_oscillators};
use crate::envelope::{ENV_TIME_MAX, env_params_ok, spec_attack_raw, spec_decay_raw,
    spec_release_raw};
use crate::filter::{FilterType, spec_filter, apply_filter};
use crate::fixed::{AMP_ONE, TIME_ONE, qmul, tmul, lemma_tmul_bound};
use crate::note::{Note, NoteState};
use crate::oscillator::{Oscillator, CustomWavetable, wavetables_ok, osc_output_ok,
    process_oscillator};
use crate::tuning::{midi_note_to_freq, spec_note_freq};
use crate::waveform::PHASE_ONE;

verus! {

/// Largest Q16 magnitude of one voice's contribution to a sample.
pub const VOICE_OUT_MAX: i64 = 786432;

/// No two sounding voices carry the same MIDI note.
pub open spec fn notes_distinct(s: Seq<Note>) -> bool {
    forall|i: int, j: int|
        0 <= i < j < s.len() ==> (#[trigger] s[i]).midi_note != (#[trigger] s[j]).midi_note
}

/// Every sounding voice keeps its ranges.
pub open spec fn notes_wf(s: Seq<Note>) -> bool {
    forall|i: int| 0 <= i < s.len() ==> (#[trigger] s[i]).wf()
}

/// The voice list with every voice of the given note removed, order kept.
pub open spec fn spec_remove_note(s: Seq<Note>, note: u8) -> Seq<Note>
    decreases s.len(),
{
    if s.len() == 0 {
        Seq::empty()
    } else if s.last().midi_note == note {
        spec_remove_note(s.drop_last(), note)
    } else {
        spec_remove_note(s.drop_last(), note).push(s.last())
    }
}

/// How many voices of the list carry the given note.
pub open spec fn count_note(s: Seq<Note>, note: u8) -> nat
    decreases s.len(),
{
    if s.len() == 0 {
        0
    } else {
        count_note(s.drop_last(), note) + if s.last().midi_note == note {
            1nat
        } else {
            0nat
        }
    }
}

/// Removing a note removes every voice of it, keeps the others in order,
/// and preserves well-formedness and distinctness.
pub proof fn lemma_remove_note_props(s: Seq<Note>, note: u8)
    ensures
        spec_remove_note(s, note).len() <= s.len(),
        count_note(spec_remove_note(s, note), note) == 0,
        forall|i: int|
            0 <= i < spec_remove_note(s, note).len() ==> (#[trigger] spec_remove_note(s, note)[i]).midi_note
                != note,
        forall|i: int|
            0 <= i < spec_remove_note(s, note).len() ==> exists|j: int|
                0 <= j < s.len() && #[trigger] spec_remove_note(s, note)[i] == #[trigger] s[j],
        notes_wf(s) ==> notes_wf(spec_remove_note(s, note)),
        notes_distinct(s) ==> notes_distinct(spec_remove_note(s, note)),
    decreases s.len(),
{
    if s.len() > 0 {
        lemma_remove_note_props(s.drop_last(), note);
        let rest = spec_remove_note(s.drop_last(), note);
        assert(forall|i: int|
            0 <= i < rest.len() ==> exists|j: int|
                0 <= j < s.len() && #[trigger] rest[i] == #[trigger] s[j]) by {
            assert forall|i: int| 0 <= i < rest.len() implies exists|j: int|
                0 <= j < s.len() && #[trigger] rest[i] == #[trigger] s[j] by {
                let j = choose|j: int| 0 <= j < s.drop_last().len() && rest[i] == s.drop_last()[j];
                assert(s.drop_last()[j] == s[j]);
            }
        }
        if s.last().midi_note != note {
            let r = rest.push(s.last());
            assert(r.drop_last() =~= rest);
            assert(count_note(r, note) == 0);
            assert(forall|i: int|
                0 <= i < r.len() ==> exists|j: int|
                    0 <= j < s.len() && #[trigger] r[i] == #[trigger] s[j]) by {
                assert forall|i: int| 0 <= i < r.len() implies exists|j: int|
                    0 <= j < s.len() && #[trigger] r[i] == #[trigger] s[j] by {
                    if i < rest.len() {
                        let j = choose|j: int| 0 <= j < s.len() && rest[i] == s[j];
                        assert(r[i] == s[j]);
                    } else {
                        assert(r[i] == s[s.len() - 1]);
                    }
                }
            }
            if notes_distinct(s) {
                assert(notes_distinct(r)) by {
                    assert forall|i: int, j: int| 0 <= i < j < r.len() implies (#[trigger] r[i]).midi_note
                        != (#[trigger] r[j]).midi_note by {
                        if j < rest.len() {
                            assert(rest[i].midi_note != rest[j].midi_note);
                        } else {
                            let k = choose|k: int|
                                0 <= k < s.drop_last().len() && rest[i] == s.drop_last()[k];
                            assert(s[k].midi_note != s[s.len() - 1].midi_note);
                        }
                    }
                }
            }
        }
    }
}

/// The number of voices a distinct list can hold is bounded by the number
/// of MIDI notes.
pub proof fn lemma_distinct_notes_len(s: Seq<Note>)
    requires
        notes_distinct(s),
    ensures
        s.len() <= 256,
{
    let keys = s.map(|i: int, n: Note| n.midi_note as int);
    assert(keys.no_duplicates());
    keys.unique_seq_to_set();
    let full = vstd::set_lib::set_int_range(0, 256);
    vstd::set_lib::lemma_int_range(0, 256);
    assert(keys.to_set().subset_of(full)) by {
        assert forall|x: int| keys.to_set().contains(x) implies full.contains(x) by {
            let i = choose|i: int| 0 <= i < keys.len() && keys[i] == x;
            assert(0 <= s[i].midi_note < 256);
        }
    }
    vstd::set_lib::lemma_len_subset(keys.to_set(), full);
}

/// The voice a note-on event creates.
pub open spec fn spec_new_note(note: u8, velocity: u8, rate: u32) -> Note {
    Note {
        midi_note: note,
        frequency: spec_note_freq(note as int) as u64,
        phase: 0,
        phase_increment: ((spec_note_freq(note as int) * 65536) / rate as int) as u64,
        velocity: ((velocity * 65536) / 127) as i64,
        state: NoteState::Attack,
        time_in_state: 0,
    }
}

/// The synthesizer engine state.
pub struct Synth {
    /// Output sample rate in Hz.
    pub sample_rate: u32,
    /// Q16 master volume in [0, 1].
    pub volume: i64,
    /// The currently sounding voices, one per held note.
    pub active_notes: Vec<Note>,
    /// The three oscillator slots.
    pub oscillators: Vec<Oscillator>,
    pub oscillator_combination_mode: OscillatorCombinationMode,
    /// Q32 seconds of master envelope attack.
    pub attack: u64,
    /// Q32 seconds of master envelope decay.
    pub decay: u64,
    /// Q16 master envelope sustain level.
    pub sustain: i64,
    /// Q32 seconds of master envelope release.
    pub release: u64,
    pub master_filter_type: FilterType,
    /// Q16 master filter cutoff.
    pub master_filter_cutoff: i64,
    /// Q16 master filter resonance, accepted but unused by the heuristic.
    pub master_filter_resonance: i64,
    /// Loaded sample buffers, oldest first.
    pub custom_wavetables: Vec<CustomWavetable>,
    /// The ring of recent output samples.
    pub analyzer: Analyzer,
    /// State words for the filter slots (three oscillators and the
    /// master); the stateless heuristics leave them untouched.
    pub filter_states: [[i64; 4]; 4],
}

impl Synth {
    /// The ranges and shape every engine value keeps: a positive sample
    /// rate, exactly three slots, distinct sounding notes, parameters
    /// within scale, and a bounded analyzer ring.
    pub open spec fn wf(self) -> bool {
        &&& 1 <= self.sample_rate
        &&& 0 <= self.volume <= AMP_ONE
        &&& notes_wf(self.active_notes@)
        &&& notes_distinct(self.active_notes@)
        &&& self.oscillators.len() == 3
        &&& (forall|i: int| 0 <= i < 3 ==> (#[trigger] self.oscillators@[i]).wf())
        &&& env_params_ok(self.attack, self.decay, self.sustain, self.release)
        &&& 0 <= self.master_filter_cutoff <= AMP_ONE
        &&& 0 <= self.master_filter_resonance <= AMP_ONE
        &&& wavetables_ok(self.custom_wavetables@)
        &&& self.analyzer.wf()
    }

    /// A fresh engine at the given sample rate: half volume, one sine slot
    /// audible and two muted, a 0.1/0.2/0.7/0.3 master envelope and no
    /// master filter.
    pub fn new(sample_rate: u32) -> (r: Synth)
        requires
            sample_rate >= 1,
        ensures
            r.sample_rate == sample_rate,
            r.volume == 32768,
            r.active_notes@.len() == 0,
            r.oscillators.len() == 3,
            r.oscillators@[0] == Oscillator::spec_default(),
            r.oscillators@[1] == (Oscillator { volume: 0, ..Oscillator::spec_default() }),
            r.oscillators@[2] == (Oscillator { volume: 0, ..Oscillator::spec_default() }),
            r.oscillator_combination_mode == OscillatorCombinationMode::Parallel,
            r.attack == 429496729,
            r.decay == 858993459,
            r.sustain == 45875,
            r.release == 1288490188,
            r.master_filter_type == FilterType::Off,
            r.master_filter_cutoff == AMP_ONE,
            r.master_filter_resonance == 0,
            r.custom_wavetables@.len() == 0,
            r.analyzer.current_waveform_samples@.len() == 0,
            r.wf(),
    {
        let mut oscillators: Vec<Oscillator> = Vec::new();
        oscillators.push(Oscillator::new());
        oscillators.push(Oscillator { volume: 0, ..Oscillator::new() });
        oscillators.push(Oscillator { volume: 0, ..Oscillator::new() });
        Synth {
            sample_rate,
            volume: 32768,
            active_notes: Vec::new(),
            oscillators,
            oscillator_combination_mode: OscillatorCombinationMode::Parallel,
            attack: 429496729,
            decay: 858993459,
            sustain: 45875,
            release: 1288490188,
            master_filter_type: FilterType::Off,
            master_filter_cutoff: AMP_ONE,
            master_filter_resonance: 0,
            custom_wavetables: Vec::new(),
            analyzer: Analyzer::new(),
            filter_states: [[0, 0, 0, 0], [0, 0, 0, 0], [0, 0, 0, 0], [0, 0, 0, 0]],
        }
    }

    /// Start a voice for a note: any voice already sounding that note is
    /// replaced, never stacked, so one note number sounds at most once.
    pub fn note_on(&mut self, midi_note: u8, velocity: u8)
        requires
            old(self).wf(),
            midi_note < 128,
            velocity < 128,
        ensures
            final(self).active_notes@ == spec_remove_note(old(self).active_notes@, midi_note).push(
                spec_new_note(midi_note, velocity, old(self).sample_rate),
            ),
            count_note(final(self).active_notes@, midi_note) == 1,
            *final(self) == (Synth { active_notes: final(self).active_notes, ..*old(self) }),
            final(self).wf(),
    {
        proof {
            lemma_remove_note_props(self.active_notes@, midi_note);
        }
        let ghost old_notes = self.active_notes@;
        let mut kept: Vec<Note> = Vec::new();
        let mut i: usize = 0;
        let n: usize = self.active_notes.len();
        while i < n
            invariant
                i <= n,
                n == old_notes.len(),
                self.active_notes@ == old_notes,
                kept@ == spec_remove_note(old_notes.subrange(0, i as int), midi_note),
            decreases n - i,
        {
            let v: Note = self.active_notes[i];
            proof {
                assert(old_notes.subrange(0, i + 1).drop_last() =~= old_notes.subrange(0, i as int));
                assert(old_notes.subrange(0, i + 1).last() == old_notes[i as int]);
            }
            if v.midi_note != midi_note {
                kept.push(v);
            }
            i = i + 1;
        }
        proof {
            assert(old_notes.subrange(0, old_notes.len() as int) =~= old_notes);
        }
        let freq: u64 = midi_note_to_freq(midi_note);
        let phase_increment: u64 = (freq * 65536) / (self.sample_rate as u64);
        assert(phase_increment <= freq * 65536) by {
            vstd::arithmetic::div_mod::lemma_div_nonincreasing(
                (freq * 65536) as int,
                self.sample_rate as int,
            );
            vstd::arithmetic::div_mod::lemma_div_pos_is_pos(
                (freq * 65536) as int,
                self.sample_rate as int,
            );
        }
        let vel: i64 = (((velocity as u64) * 65536) / 127) as i64;
        assert(vel <= 65536) by {
            vstd::arithmetic::div_mod::lemma_div_is_ordered(
                (velocity as u64 * 65536) as int,
                127int * 65536int,
                127,
            );
            vstd::arithmetic::div_mod::lemma_div_by_multiple(65536, 127);
        }
        assert(0 <= vel) by {
            vstd::arithmetic::div_mod::lemma_div_pos_is_pos((velocity as u64 * 65536) as int, 127);
        }
        let new_note = Note {
            midi_note,
            frequency: freq,
            phase: 0,
            phase_increment,
            velocity: vel,
            state: NoteState::Attack,
            time_in_state: 0,
        };
        kept.push(new_note);
        self.active_notes = kept;
        proof {
            let r = spec_remove_note(old_notes, midi_note);
            assert(count_note(r.push(new_note), midi_note) == 1) by {
                assert(r.push(new_note).drop_last() =~= r);
            }
            assert(notes_distinct(r.push(new_note))) by {
                assert forall|a: int, b: int| 0 <= a < b < r.push(new_note).len() implies (
                #[trigger] r.push(new_note)[a]).midi_note != (#[trigger] r.push(new_note)[b]).midi_note by {
                    if b < r.len() {
                        assert(r[a].midi_note != r[b].midi_note);
                    } else {
                        assert(r[a].midi_note != midi_note);
                    }
                }
            }
        }
    }

    /// Begin the release ramp of every voice sounding the note; the voice
    /// is not removed until its ramp completes.
    pub fn note_off(&mut self, midi_note: u8)
        requires
            old(self).wf(),
        ensures
            final(self).active_notes@.len() == old(self).active_notes@.len(),
            forall|i: int|
                0 <= i < old(self).active_notes@.len() ==> #[trigger] final(self).active_notes@[i]
                    == if old(self).active_notes@[i].midi_note == midi_note {
                    Note {
                        state: NoteState::Release,
                        time_in_state: 0,
                        ..old(self).active_notes@[i]
                    }
                } else {
                    old(self).active_notes@[i]
                },
            *final(self) == (Synth { active_notes: final(self).active_notes, ..*old(self) }),
            final(self).wf(),
    {
        let ghost old_notes = self.active_notes@;
        let n: usize = self.active_notes.len();
        let mut i: usize = 0;
        while i < n
            invariant
                i <= n,
                n == old_notes.len(),
                *self == (Synth { active_notes: self.active_notes, ..*old(self) }),
                notes_wf(old_notes),
                notes_distinct(old_notes),
                self.active_notes@.len() == old_notes.len(),
                forall|j: int|
                    i <= j < old_notes.len() ==> #[trigger] self.active_notes@[j] == old_notes[j],
                forall|j: int|
                    0 <= j < i ==> #[trigger] self.active_notes@[j] == if old_notes[j].midi_note
                        == midi_note {
                        Note { state: NoteState::Release, time_in_state: 0, ..old_notes[j] }
                    } else {
                        old_notes[j]
                    },
            decreases n - i,
        {
            if self.active_notes[i].midi_note == midi_note {
                let updated = Note {
                    state: NoteState::Release,
                    time_in_state: 0,
                    ..self.active_notes[i]
                };
                self.active_notes[i] = updated;
            }
            i = i + 1;
        }
        proof {
            assert(notes_distinct(self.active_notes@)) by {
                assert forall|a: int, b: int| 0 <= a < b < self.active_notes@.len() implies (
                #[trigger] self.active_notes@[a]).midi_note != (#[trigger] self.active_notes@[b]).midi_note by {
                    assert(old_notes[a].midi_note != old_notes[b].midi_note);
                }
            }
        }
    }

    /// Record the sustain pedal; the note lifecycle does not yet act on
    /// it, so the engine is left as it was.
    pub fn set_sustain_pedal(&mut self, _on: bool)
        ensures
            *final(self) == *old(self),
    {
    }

    /// Set the master volume, clamped into [0, 1].
    pub fn set_volume(&mut self, volume: i64)
        requires
            old(self).wf(),
        ensures
            final(self).volume == if volume < 0 {
                0int
            } else if volume > AMP_ONE {
                AMP_ONE as int
            } else {
                volume as int
            },
            *final(self) == (Synth { volume: final(self).volume, ..*old(self) }),
            final(self).wf(),
    {
        self.volume = if volume < 0 {
            0
        } else if volume > AMP_ONE {
            AMP_ONE
        } else {
            volume
        };
    }

    /// Filter one Q16 sample with the given kind and cutoff; the slot
    /// index and resonance are accepted for interface fidelity but the
    /// heuristic is stateless and ignores them.
    pub fn apply_filter(
        &self,
        sample: i64,
        filter_type: &FilterType,
        cutoff: i64,
        _resonance: i64,
        _filter_index: usize,
    ) -> (r: i64)
        requires
            -0x4000_0000 <= sample <= 0x4000_0000,
        ensures
            r == spec_filter(*filter_type, cutoff as int, sample as int),
            -0x4000_0000 <= r <= 0x4000_0000,
    {
        apply_filter(sample, filter_type, cutoff)
    }
}

/// The Q32 seconds one rendered sample advances time by: 1 / sample rate.
pub open spec fn spec_dt(rate: int) -> int {
    0x1_0000_0000int / rate
}

/// One master-envelope step of a voice: the next stage and time in it, the
/// emitted Q16 level, and whether the voice finished its release. The step
/// is evaluated once per rendered sample with the time already advanced.
pub open spec fn spec_env_step(
    state: NoteState,
    t: int,
    dt: int,
    a: int,
    d: int,
    s: int,
    r: int,
) -> (NoteState, int, int, bool) {
    match state {
        NoteState::Attack => {
            let t2 = t + dt;
            let v = spec_attack_raw(t2, a);
            if v >= 65536 {
                (NoteState::Decay, 0int, 65536int, false)
            } else {
                (NoteState::Attack, t2, v, false)
            }
        },
        NoteState::Decay => {
            let t2 = t + dt;
            let v = spec_decay_raw(t2, d, s);
            if v <= s || t2 >= d {
                (NoteState::Sustain, 0int, s, false)
            } else {
                (NoteState::Decay, t2, v, false)
            }
        },
        NoteState::Sustain => (NoteState::Sustain, t, s, false),
        NoteState::Release => {
            let t2 = t + dt;
            let v = spec_release_raw(t2, r, s);
            if v <= 0 || t2 >= r {
                (NoteState::Release, t2, 0int, true)
            } else {
                (NoteState::Release, t2, v, false)
            }
        },
        _ => (state, t, 0int, false),
    }
}

/// The envelope step emits a level within [0, 1] and keeps the time of a
/// surviving voice within the longest stage duration.
pub proof fn lemma_env_step_props(
    state: NoteState,
    t: int,
    dt: int,
    a: int,
    d: int,
    s: int,
    r: int,
)
    requires
        0 <= t <= ENV_TIME_MAX,
        0 <= dt <= TIME_ONE,
        1 <= a <= ENV_TIME_MAX,
        1 <= d <= ENV_TIME_MAX,
        1 <= r <= ENV_TIME_MAX,
        0 <= s <= 65536,
    ensures
        0 <= spec_env_step(state, t, dt, a, d, s, r).2 <= 65536,
        0 <= spec_env_step(state, t, dt, a, d, s, r).1 <= ENV_TIME_MAX + TIME_ONE,
        !spec_env_step(state, t, dt, a, d, s, r).3 ==> spec_env_step(state, t, dt, a, d, s, r).1
            <= ENV_TIME_MAX,
{
    let t2 = t + dt;
    match state {
        NoteState::Attack => {
            let v = spec_attack_raw(t2, a);
            vstd::arithmetic::div_mod::lemma_div_pos_is_pos(t2 * 65536, a);
            if v < 65536 {
                if t2 >= a {
                    assert(t2 * 65536 >= a * 65536) by (nonlinear_arith)
                        requires
                            t2 >= a,
                            a >= 1,
                    ;
                    vstd::arithmetic::div_mod::lemma_div_is_ordered(a * 65536, t2 * 65536, a);
                    vstd::arithmetic::div_mod::lemma_div_by_multiple(65536, a);
                }
            }
        },
        NoteState::Decay => {
            let q = ((65536 - s) * t2) / d;
            assert(0 <= (65536 - s) * t2) by (nonlinear_arith)
                requires
                    s <= 65536,
                    t2 >= 0,
            ;
            vstd::arithmetic::div_mod::lemma_div_pos_is_pos((65536 - s) * t2, d);
        },
        NoteState::Release => {
            let q = (s * t2) / r;
            assert(0 <= s * t2) by (nonlinear_arith)
                requires
                    s >= 0,
                    t2 >= 0,
            ;
            vstd::arithmetic::div_mod::lemma_div_pos_is_pos(s * t2, r);
        },
        _ => {},
    }
}

/// One master-envelope step of a voice, executed.
fn env_step(state: NoteState, t: u64, dt: u64, a: u64, d: u64, s: i64, r: u64) -> (res: (
    NoteState,
    u64,
    i64,
    bool,
))
    requires
        t <= ENV_TIME_MAX,
        dt <= TIME_ONE,
        env_params_ok(a, d, s, r),
    ensures
        res.0 == spec_env_step(state, t as int, dt as int, a as int, d as int, s as int, r as int).0,
        res.1 == spec_env_step(state, t as int, dt as int, a as int, d as int, s as int, r as int).1,
        res.2 == spec_env_step(state, t as int, dt as int, a as int, d as int, s as int, r as int).2,
        res.3 == spec_env_step(state, t as int, dt as int, a as int, d as int, s as int, r as int).3,
        0 <= res.2 <= 65536,
        res.1 <= ENV_TIME_MAX + TIME_ONE,
        !res.3 ==> res.1 <= ENV_TIME_MAX,
{
    proof {
        lemma_env_step_props(
            state,
            t as int,
            dt as int,
            a as int,
            d as int,
            s as int,
            r as int,
        );
    }
    match state {
        NoteState::Attack => {
            let t2: u64 = t + dt;
            let q: u64 = (t2 * 65536) / a;
            if q >= 65536 {
                (NoteState::Decay, 0, 65536, false)
            } else {
                (NoteState::Attack, t2, q as i64, false)
            }
        },
        NoteState::Decay => {
            let t2: u64 = t + dt;
            let fall: u64 = (AMP_ONE - s) as u64;
            assert(fall * t2 <= 65536 * (ENV_TIME_MAX + TIME_ONE)) by (nonlinear_arith)
                requires
                    fall <= 65536,
                    0 <= t2 <= ENV_TIME_MAX + TIME_ONE,
            ;
            let q: u64 = (fall * t2) / d;
            assert(q <= fall * t2) by {
                vstd::arithmetic::div_mod::lemma_div_nonincreasing((fall * t2) as int, d as int);
                vstd::arithmetic::div_mod::lemma_div_pos_is_pos((fall * t2) as int, d as int);
            }
            let v: i64 = 65536 - (q as i64);
            if v <= s || t2 >= d {
                (NoteState::Sustain, 0, s, false)
            } else {
                (NoteState::Decay, t2, v, false)
            }
        },
        NoteState::Sustain => (NoteState::Sustain, t, s, false),
        NoteState::Release => {
            let t2: u64 = t + dt;
            let sus: u64 = s as u64;
            assert(sus * t2 <= 65536 * (ENV_TIME_MAX + TIME_ONE)) by (nonlinear_arith)
                requires
                    sus <= 65536,
                    0 <= t2 <= ENV_TIME_MAX + TIME_ONE,
            ;
            let q: u64 = (sus * t2) / r;
            assert(q <= sus * t2) by {
                vstd::arithmetic::div_mod::lemma_div_nonincreasing((sus * t2) as int, r as int);
                vstd::arithmetic::div_mod::lemma_div_pos_is_pos((sus * t2) as int, r as int);
            }
            let v: i64 = s - (q as i64);
            if v <= 0 || t2 >= r {
                (NoteState::Release, t2, 0, true)
            } else {
                (NoteState::Release, t2, v, false)
            }
        },
        _ => (state, t, 0, false),
    }
}

/// A voice after one render step: phase advanced by its increment and the
/// envelope stage machine stepped.
pub open spec fn spec_voice_stepped(n: Note, dt: int, a: int, d: int, s: int, r: int) -> Note {
    let step = spec_env_step(n.state, n.time_in_state as int, dt, a, d, s, r);
    Note {
        phase: (((n.phase + n.phase_increment) as int) % 0x1_0000_0000) as u64,
        state: step.0,
        time_in_state: step.1 as u64,
        ..n
    }
}

/// The master-envelope level a voice contributes at this step.
pub open spec fn spec_voice_env(n: Note, dt: int, a: int, d: int, s: int, r: int) -> int {
    spec_env_step(n.state, n.time_in_state as int, dt, a, d, s, r).2
}

/// Whether this step finished the voice's release.
pub open spec fn spec_voice_removed(n: Note, dt: int, a: int, d: int, s: int, r: int) -> bool {
    spec_env_step(n.state, n.time_in_state as int, dt, a, d, s, r).3
}

/// The voice list after one render step: every voice stepped, those whose
/// release completed removed, order kept.
pub open spec fn spec_surviving(s: Seq<Note>, dt: int, a: int, d: int, sus: int, r: int) -> Seq<
    Note,
>
    decreases s.len(),
{
    if s.len() == 0 {
        Seq::empty()
    } else {
        let rest = spec_surviving(s.drop_last(), dt, a, d, sus, r);
        if spec_voice_removed(s.last(), dt, a, d, sus, r) {
            rest
        } else {
            rest.push(spec_voice_stepped(s.last(), dt, a, d, sus, r))
        }
    }
}

/// Stepping and removal keep the voice list well formed and its notes
/// distinct.
pub proof fn lemma_surviving_props(s: Seq<Note>, dt: int, a: int, d: int, sus: int, r: int)
    requires
        notes_wf(s),
        notes_distinct(s),
        0 <= dt <= TIME_ONE,
        1 <= a <= ENV_TIME_MAX,
        1 <= d <= ENV_TIME_MAX,
        1 <= r <= ENV_TIME_MAX,
        0 <= sus <= 65536,
    ensures
        notes_wf(spec_surviving(s, dt, a, d, sus, r)),
        notes_distinct(spec_surviving(s, dt, a, d, sus, r)),
        forall|i: int|
            0 <= i < spec_surviving(s, dt, a, d, sus, r).len() ==> exists|j: int|
                0 <= j < s.len() && #[trigger] spec_surviving(s, dt, a, d, sus, r)[i]
                    == spec_voice_stepped(#[trigger] s[j], dt, a, d, sus, r),
    decreases s.len(),
{
    if s.len() > 0 {
        assert(notes_wf(s.drop_last())) by {
            assert(forall|i: int|
                0 <= i < s.drop_last().len() ==> #[trigger] s.drop_last()[i] == s[i]);
        }
        lemma_surviving_props(s.drop_last(), dt, a, d, sus, r);
        let rest = spec_surviving(s.drop_last(), dt, a, d, sus, r);
        assert(forall|i: int|
            0 <= i < rest.len() ==> exists|j: int|
                0 <= j < s.len() && #[trigger] rest[i] == spec_voice_stepped(
                    #[trigger] s[j],
                    dt,
                    a,
                    d,
                    sus,
                    r,
                )) by {
            assert forall|i: int| 0 <= i < rest.len() implies exists|j: int|
                0 <= j < s.len() && #[trigger] rest[i] == spec_voice_stepped(
                    #[trigger] s[j],
                    dt,
                    a,
                    d,
                    sus,
                    r,
                ) by {
                let j = choose|j: int|
                    0 <= j < s.drop_last().len() && rest[i] == spec_voice_stepped(
                        s.drop_last()[j],
                        dt,
                        a,
                        d,
                        sus,
                        r,
                    );
                assert(s.drop_last()[j] == s[j]);
            }
        }
        if !spec_voice_removed(s.last(), dt, a, d, sus, r) {
            let nn = spec_voice_stepped(s.last(), dt, a, d, sus, r);
            let rr = rest.push(nn);
            assert(nn.wf()) by {
                lemma_env_step_props(
                    s.last().state,
                    s.last().time_in_state as int,
                    dt,
                    a,
                    d,
                    sus,
                    r,
                );
            }
            assert(forall|i: int|
                0 <= i < rr.len() ==> exists|j: int|
                    0 <= j < s.len() && #[trigger] rr[i] == spec_voice_stepped(
                        #[trigger] s[j],
                        dt,
                        a,
                        d,
                        sus,
                        r,
                    )) by {
                assert forall|i: int| 0 <= i < rr.len() implies exists|j: int|
                    0 <= j < s.len() && #[trigger] rr[i] == spec_voice_stepped(
                        #[trigger] s[j],
                        dt,
                        a,
                        d,
                        sus,
                        r,
                    ) by {
                    if i < rest.len() {
                        let j = choose|j: int|
                            0 <= j < s.len() && rest[i] == spec_voice_stepped(
                                s[j],
                                dt,
                                a,
                                d,
                                sus,
                                r,
                            );
                        assert(rr[i] == spec_voice_stepped(s[j], dt, a, d, sus, r));
                    } else {
                        assert(rr[i] == spec_voice_stepped(s[s.len() - 1], dt, a, d, sus, r));
                    }
                }
            }
            assert(notes_distinct(rr)) by {
                assert forall|x: int, y: int| 0 <= x < y < rr.len() implies (
                #[trigger] rr[x]).midi_note != (#[trigger] rr[y]).midi_note by {
                    if y < rest.len() {
                        assert(rest[x].midi_note != rest[y].midi_note);
                    } else {
                        let k = choose|k: int|
                            0 <= k < s.drop_last().len() && rest[x] == spec_voice_stepped(
                                s.drop_last()[k],
                                dt,
                                a,
                                d,
                                sus,
                                r,
                            );
                        assert(s[k].midi_note != s[s.len() - 1].midi_note);
                    }
                }
            }
        }
    }
}

/// The sum of a sequence of sample contributions.
pub open spec fn seq_sum(s: Seq<int>) -> int
    decreases s.len(),
{
    if s.len() == 0 {
        0
    } else {
        seq_sum(s.drop_last()) + s.last()
    }
}

/// What one voice may contribute to a rendered sample: the combined output
/// of the three slots at the stepped phase and stage, scaled by the master
/// envelope level and the voice velocity.
pub open spec fn voice_out_ok(
    n: Note,
    oscs: Seq<Oscillator>,
    mode: OscillatorCombinationMode,
    wts: Seq<CustomWavetable>,
    dt: int,
    st: int,
    a: int,
    d: int,
    sus: int,
    r: int,
    c: int,
) -> bool {
    let n2 = spec_voice_stepped(n, dt, a, d, sus, r);
    let env = spec_voice_env(n, dt, a, d, sus, r);
    exists|o0: int, o1: int, o2: int|
        {
            &&& osc_output_ok(
                oscs[0],
                n2.phase as int,
                n2.state,
                n2.time_in_state as int,
                st,
                wts,
                o0,
            )
            &&& osc_output_ok(
                oscs[1],
                n2.phase as int,
                n2.state,
                n2.time_in_state as int,
                st,
                wts,
                o1,
            )
            &&& osc_output_ok(
                oscs[2],
                n2.phase as int,
                n2.state,
                n2.time_in_state as int,
                st,
                wts,
                o2,
            )
            &&& c == tmul(
                tmul(spec_combine(mode, o0, o1, o2, oscs[0], oscs[1], n2.phase as int), env),
                n.velocity as int,
            )
        }
}

impl Synth {
    /// Render one output sample at `sample_time` Q32 seconds: every voice
    /// advances its phase and envelope stage, the three slots are
    /// evaluated and combined per voice, the voice contributions are
    /// summed, master-filtered and scaled by the master volume; finished
    /// voices are removed and the sample is appended to the analyzer ring.
    pub fn get_sample(&mut self, sample_time: u64) -> (r: i64)
        requires
            old(self).wf(),
        ensures
            final(self).wf(),
            *final(self) == (Synth {
                active_notes: final(self).active_notes,
                analyzer: final(self).analyzer,
                ..*old(self)
            }),
            final(self).active_notes@ == spec_surviving(
                old(self).active_notes@,
                spec_dt(old(self).sample_rate as int),
                old(self).attack as int,
                old(self).decay as int,
                old(self).sustain as int,
                old(self).release as int,
            ),
            final(self).analyzer.current_waveform_samples@ == spec_ring_push(
                old(self).analyzer.current_waveform_samples@,
                r,
            ),
            final(self).analyzer.fft_buffer == old(self).analyzer.fft_buffer,
            exists|outs: Seq<int>|
                {
                    &&& outs.len() == old(self).active_notes@.len()
                    &&& (forall|i: int|
                        0 <= i < outs.len() ==> voice_out_ok(
                            old(self).active_notes@[i],
                            old(self).oscillators@,
                            old(self).oscillator_combination_mode,
                            old(self).custom_wavetables@,
                            spec_dt(old(self).sample_rate as int),
                            sample_time as int,
                            old(self).attack as int,
                            old(self).decay as int,
                            old(self).sustain as int,
                            old(self).release as int,
                            #[trigger] outs[i],
                        ))
                    &&& r == tmul(
                        spec_filter(
                            old(self).master_filter_type,
                            old(self).master_filter_cutoff as int,
                            seq_sum(outs),
                        ),
                        old(self).volume as int,
                    )
                },
            -0x4000_0000 <= r <= 0x4000_0000,
    {
        let dt: u64 = TIME_ONE / (self.sample_rate as u64);
        assert(dt <= TIME_ONE) by {
            vstd::arithmetic::div_mod::lemma_div_nonincreasing(
                TIME_ONE as int,
                self.sample_rate as int,
            );
            vstd::arithmetic::div_mod::lemma_div_pos_is_pos(
                TIME_ONE as int,
                self.sample_rate as int,
            );
        }
        let ghost old_notes = self.active_notes@;
        let ghost a_sp = self.attack as int;
        let ghost d_sp = self.decay as int;
        let ghost s_sp = self.sustain as int;
        let ghost r_sp = self.release as int;
        proof {
            lemma_distinct_notes_len(old_notes);
        }
        let n: usize = self.active_notes.len();
        let mut survivors: Vec<Note> = Vec::new();
        let mut sum: i64 = 0;
        let ghost mut outs: Seq<int> = Seq::empty();
        let mut i: usize = 0;
        while i < n
            invariant
                i <= n,
                n == old_notes.len(),
                n <= 256,
                *self == *old(self),
                self.wf(),
                old_notes == self.active_notes@,
                dt == spec_dt(self.sample_rate as int),
                dt <= TIME_ONE,
                a_sp == self.attack as int,
                d_sp == self.decay as int,
                s_sp == self.sustain as int,
                r_sp == self.release as int,
                outs.len() == i,
                forall|j: int|
                    0 <= j < i ==> voice_out_ok(
                        old_notes[j],
                        self.oscillators@,
                        self.oscillator_combination_mode,
                        self.custom_wavetables@,
                        dt as int,
                        sample_time as int,
                        a_sp,
                        d_sp,
                        s_sp,
                        r_sp,
                        #[trigger] outs[j],
                    ),
                sum == seq_sum(outs),
                -(i as int) * (VOICE_OUT_MAX as int) <= sum <= (i as int) * (VOICE_OUT_MAX as int),
                survivors@ == spec_surviving(
                    old_notes.subrange(0, i as int),
                    dt as int,
                    a_sp,
                    d_sp,
                    s_sp,
                    r_sp,
                ),
            decreases n - i,
        {
            let v: Note = self.active_notes[i];
            let stepped_phase: u64 = (v.phase + v.phase_increment) % PHASE_ONE;
            let step: (NoteState, u64, i64, bool) = env_step(
                v.state,
                v.time_in_state,
                dt,
                self.attack,
                self.decay,
                self.sustain,
                self.release,
            );
            let stepped = Note { phase: stepped_phase, state: step.0, time_in_state: step.1, ..v };
            let o0: i64 = process_oscillator(
                &self.oscillators[0],
                stepped_phase,
                sample_time,
                &self.custom_wavetables,
                step.0,
                step.1,
            );
            let o1: i64 = process_oscillator(
                &self.oscillators[1],
                stepped_phase,
                sample_time,
                &self.custom_wavetables,
                step.0,
                step.1,
            );
            let o2: i64 = process_oscillator(
                &self.oscillators[2],
                stepped_phase,
                sample_time,
                &self.custom_wavetables,
                step.0,
                step.1,
            );
            let osc_outputs: [i64; 3] = [o0, o1, o2];
            let combined: i64 = combine_oscillators(
                &osc_outputs,
                &self.oscillators,
                &self.oscillator_combination_mode,
                stepped_phase,
            );
            let ce: i64 = qmul(combined, step.2);
            proof {
                lemma_tmul_bound(combined as int, step.2 as int, COMBINED_MAX as int, 65536);
            }
            let contribution: i64 = qmul(ce, v.velocity);
            proof {
                lemma_tmul_bound(ce as int, v.velocity as int, VOICE_OUT_MAX as int, 65536);
            }
            sum = sum + contribution;
            if !step.3 {
                survivors.push(stepped);
            }
            proof {
                let ghost prev_outs = outs;
                outs = outs.push(contribution as int);
                assert(outs.drop_last() =~= prev_outs);
                assert(stepped == spec_voice_stepped(old_notes[i as int], dt as int, a_sp, d_sp, s_sp, r_sp));
                assert(voice_out_ok(
                    old_notes[i as int],
                    self.oscillators@,
                    self.oscillator_combination_mode,
                    self.custom_wavetables@,
                    dt as int,
                    sample_time as int,
                    a_sp,
                    d_sp,
                    s_sp,
                    r_sp,
                    contribution as int,
                )) by {
                    assert(osc_output_ok(
                        self.oscillators@[0],
                        stepped.phase as int,
                        stepped.state,
                        stepped.time_in_state as int,
                        sample_time as int,
                        self.custom_wavetables@,
                        o0 as int,
                    ) && osc_output_ok(
                        self.oscillators@[1],
                        stepped.phase as int,
                        stepped.state,
                        stepped.time_in_state as int,
                        sample_time as int,
                        self.custom_wavetables@,
                        o1 as int,
                    ) && osc_output_ok(
                        self.oscillators@[2],
                        stepped.phase as int,
                        stepped.state,
                        stepped.time_in_state as int,
                        sample_time as int,
                        self.custom_wavetables@,
                        o2 as int,
                    ) && contribution as int == tmul(
                        tmul(
                            spec_combine(
                                self.oscillator_combination_mode,
                                o0 as int,
                                o1 as int,
                                o2 as int,
                                self.oscillators@[0],
                                self.oscillators@[1],
                                stepped.phase as int,
                            ),
                            spec_voice_env(old_notes[i as int], dt as int, a_sp, d_sp, s_sp, r_sp),
                        ),
                        old_notes[i as int].velocity as int,
                    ));
                }
                assert(old_notes.subrange(0, i + 1).drop_last() =~= old_notes.subrange(
                    0,
                    i as int,
                ));
                assert(old_notes.subrange(0, i + 1).last() == old_notes[i as int]);
            }
            i = i + 1;
        }
        proof {
            assert(old_notes.subrange(0, n as int) =~= old_notes);
            lemma_surviving_props(old_notes, dt as int, a_sp, d_sp, s_sp, r_sp);
        }
        let filtered: i64 = apply_filter(sum, &self.master_filter_type, self.master_filter_cutoff);
        let out: i64 = qmul(filtered, self.volume);
        proof {
            lemma_tmul_bound(filtered as int, self.volume as int, 0x4000_0000, 65536);
        }
        self.active_notes = survivors;
        self.analyzer.push_sample(out);
        proof {
            let ghost witness = outs;
            assert(outs.len() == old_notes.len() && (forall|j: int|
                0 <= j < outs.len() ==> voice_out_ok(
                    old_notes[j],
                    old(self).oscillators@,
                    old(self).oscillator_combination_mode,
                    old(self).custom_wavetables@,
                    dt as int,
                    sample_time as int,
                    a_sp,
                    d_sp,
                    s_sp,
                    r_sp,
                    #[trigger] outs[j],
                )) && out as int == tmul(
                spec_filter(
                    old(self).master_filter_type,
                    old(self).master_filter_cutoff as int,
                    seq_sum(outs),
                ),
                old(self).volume as int,
            ));
        }
        out
    }
}


impl Synth {
    /// The master filter settings as one tuple, for control mapping.
    pub fn get_master_filter_params(&self) -> (r: (FilterType, i64, i64))
        ensures
            r.0 == self.master_filter_type,
            r.1 == self.master_filter_cutoff,
            r.2 == self.master_filter_resonance,
    {
        (self.master_filter_type, self.master_filter_cutoff, self.master_filter_resonance)
    }

    /// The stage times control mapping edits around: the default master
    /// envelope.
    pub fn get_master_envelope_params(&self) -> (r: (u64, u64, i64, u64))
        ensures
            r.0 == 429496729,
            r.1 == 858993459,
            r.2 == 45875,
            r.3 == 1288490188,
    {
        (429496729, 858993459, 45875, 1288490188)
    }
}

} // verus!

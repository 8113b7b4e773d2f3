//! Notes and voices: one `Note` is a currently-sounding voice with its own
//! phase and envelope-stage tracking.

use vstd::prelude::*;
use crate::fixed::AMP_ONE;
use crate::waveform::PHASE_ONE;
use crate::envelope::ENV_TIME_MAX;

verus! {

/// Largest Q16 frequency a note can carry (a little under 2^14 Hz, above
/// the highest MIDI pitch).
pub const FREQ_MAX: u64 = 0x4000_0000;

/// Largest phase increment a note can carry.
pub const PHASE_INC_MAX: u64 = 0x1_0000_0000_0000;

/// The envelope stage a sounding note is in, with auxiliary markers for
/// voices outside the note-on/off transition.
#[derive(Clone, Copy, Debug, PartialEq, Eq, Structural)]
pub enum NoteState {
    Attack,
    Decay,
    Sustain,
    Release,
    Off,
    Pressed,
    Released,
}

/// A single sounding note.
#[derive(Clone, Copy, Debug)]
pub struct Note {
    /// MIDI note number.
    pub midi_note: u8,
    /// Q16 frequency in Hz.
    pub frequency: u64,
    /// Q32 phase, a fraction of one cycle.
    pub phase: u64,
    /// Q32 phase advance per rendered sample: frequency / sample rate.
    pub phase_increment: u64,
    /// Q16 velocity in [0, 1].
    pub velocity: i64,
    /// Envelope stage of this voice.
    pub state: NoteState,
    /// Q32 seconds spent in the current stage.
    pub time_in_state: u64,
}

impl Note {
    /// The ranges every stored note keeps.
    pub open spec fn wf(self) -> bool {
        &&& self.frequency <= FREQ_MAX
        &&& self.phase < PHASE_ONE
        &&& self.phase_increment <= PHASE_INC_MAX
        &&& 0 <= self.velocity <= AMP_ONE
        &&& self.time_in_state <= ENV_TIME_MAX
    }
}

impl Default for Note {
    /// A silent placeholder note at A4.
    fn default() -> (r: Note)
        ensures
            r.midi_note == 0,
            r.velocity == 0,
            r.frequency == 28835840,
            r.phase == 0,
            r.phase_increment == 0,
            r.state == NoteState::Off,
            r.time_in_state == 0,
            r.wf(),
    {
        Note {
            midi_note: 0,
            velocity: 0,
            frequency: 28835840,
            phase: 0,
            phase_increment: 0,
            state: NoteState::Off,
            time_in_state: 0,
        }
    }
}

/// A voice slot as seen by a keyboard-style front end: pressed or released
/// rather than a full envelope stage.
#[derive(Clone, Copy, Debug)]
pub struct Voice {
    pub note: u8,
    pub velocity: u8,
    pub state: NoteState,
    /// Q16 envelope level last computed for this voice.
    pub envelope_val: i64,
    /// Q32 phase.
    pub current_phase: u64,
    /// Q32 seconds since release began.
    pub release_time: u64,
}

impl Voice {
    /// A freshly pressed voice.
    pub fn new(note: u8, velocity: u8) -> (r: Voice)
        ensures
            r.note == note,
            r.velocity == velocity,
            r.state == NoteState::Pressed,
            r.envelope_val == 0,
            r.current_phase == 0,
            r.release_time == 0,
    {
        Voice {
            note,
            velocity,
            state: NoteState::Pressed,
            envelope_val: 0,
            current_phase: 0,
            release_time: 0,
        }
    }

    /// A voice is active in every state but `Off`.
    pub fn is_active(&self) -> (r: bool)
        ensures
            r == (self.state != NoteState::Off),
    {
        match self.state {
            NoteState::Off => false,
            _ => true,
        }
    }

    /// Begin the release ramp of a pressed voice; any other state is kept.
    pub fn release(&mut self)
        ensures
            old(self).state == NoteState::Pressed ==> *final(self) == (Voice {
                state: NoteState::Released,
                release_time: 0,
                ..*old(self)
            }),
            old(self).state != NoteState::Pressed ==> *final(self) == *old(self),
    {
        if self.state == NoteState::Pressed {
            self.state = NoteState::Released;
            self.release_time = 0;
        }
    }
}

} // verus!

//! The parameter bus: an unbounded multi-producer single-consumer channel
//! carrying configuration and note events from control threads into the
//! engine, drained with a bounded budget per invocation.
//!
//! The channel itself is crossbeam's; what each message does to the engine
//! is `handle_message`, verified exactly. Values arriving from outside are
//! clamped into the engine's accepted ranges as they are applied.

use vstd::prelude::*;
use crate::combination::OscillatorCombinationMode;
use crate::envelope::ENV_TIME_MAX;
use crate::filter::FilterType;
use crate::modulation::ModulationTarget;
use crate::oscillator::{Oscillator, DETUNE_MAX, OCTAVE_MAX};
use crate::preset::SynthPreset;
use crate::synth::{Synth, spec_remove_note, spec_new_note, count_note};
use crate::waveform::Waveform;

verus! {

/// How many messages one drain applies unless the caller asks otherwise.
pub const DEFAULT_DRAIN_BUDGET: usize = 10;

/// A control or note event posted to the engine.
pub enum SynthMessage {
    /// Note number and velocity, both 7-bit.
    NoteOn(u8, u8),
    NoteOff(u8),
    /// Slot index, waveform, Q16 volume, Q16 detune, octave shift.
    ChangeOscillator(usize, Waveform, i64, i64, i8),
    /// Slot index, Q32 attack, Q32 decay, Q16 sustain, Q32 release.
    ChangeOscillatorEnvelope(usize, u64, u64, i64, u64),
    /// Slot index, filter kind, Q16 cutoff, Q16 resonance.
    ChangeOscillatorFilter(usize, FilterType, i64, i64),
    /// Slot index, Q16 depth, target.
    ChangeOscillatorModulation(usize, i64, ModulationTarget),
    ChangeOscillatorCombinationMode(OscillatorCombinationMode),
    /// Q32 attack, Q32 decay, Q16 sustain, Q32 release.
    ChangeMasterEnvelope(u64, u64, i64, u64),
    /// Filter kind, Q16 cutoff, Q16 resonance.
    ChangeMasterFilter(FilterType, i64, i64),
    /// Accepted for interface fidelity; the engine acts on `SetVolume`.
    ChangeVolume(i64),
    /// A path for the embedding application to load; the engine itself
    /// leaves it to the caller.
    LoadSample(String),
    /// Q16 master volume.
    SetVolume(i64),
    /// Q16 depth broadcast to every slot whose modulation is wired.
    SetModulation(i64),
    SetSustainPedal(bool),
    /// Q16 normalized bend in [-1, 1].
    SetPitchBend(i64),
    /// Note number and Q16 pressure.
    SetAftertouch(u8, i64),
    /// Q16 pressure.
    SetChannelPressure(i64),
    /// Preset handling is the embedding application's work; the engine
    /// ignores these.
    SavePreset(SynthPreset),
    LoadPreset(String),
    DeletePreset(String),
    ListPresets,
}

/// A Q16 level clamped into [0, 1].
pub open spec fn cl_amp(v: int) -> int {
    if v < 0 {
        0
    } else if v > 65536 {
        65536
    } else {
        v
    }
}

/// A Q16 bend clamped into [-1, 1].
pub open spec fn cl_bend(v: int) -> int {
    if v < -65536 {
        -65536
    } else if v > 65536 {
        65536
    } else {
        v
    }
}

/// A Q32 stage duration clamped into the accepted band.
pub open spec fn cl_time(t: int) -> int {
    if t < 1 {
        1
    } else if t > ENV_TIME_MAX {
        ENV_TIME_MAX as int
    } else {
        t
    }
}

/// A Q16 detune clamped into two octaves either way.
pub open spec fn cl_detune(v: int) -> int {
    if v < -DETUNE_MAX {
        -DETUNE_MAX as int
    } else if v > DETUNE_MAX {
        DETUNE_MAX as int
    } else {
        v
    }
}

/// An octave shift clamped into the accepted band.
pub open spec fn cl_octave(v: int) -> int {
    if v < -OCTAVE_MAX {
        -OCTAVE_MAX as int
    } else if v > OCTAVE_MAX {
        OCTAVE_MAX as int
    } else {
        v
    }
}

/// A note or velocity byte folded into 7 bits.
pub open spec fn cl_note7(v: int) -> int {
    if v > 127 {
        127
    } else {
        v
    }
}

fn clamp_amp(v: i64) -> (r: i64)
    ensures
        r == cl_amp(v as int),
{
    if v < 0 {
        0
    } else if v > 65536 {
        65536
    } else {
        v
    }
}

fn clamp_bend(v: i64) -> (r: i64)
    ensures
        r == cl_bend(v as int),
{
    if v < -65536 {
        -65536
    } else if v > 65536 {
        65536
    } else {
        v
    }
}

fn clamp_time(t: u64) -> (r: u64)
    ensures
        r == cl_time(t as int),
{
    if t < 1 {
        1
    } else if t > ENV_TIME_MAX {
        ENV_TIME_MAX
    } else {
        t
    }
}

fn clamp_detune(v: i64) -> (r: i64)
    ensures
        r == cl_detune(v as int),
{
    if v < -DETUNE_MAX {
        -DETUNE_MAX
    } else if v > DETUNE_MAX {
        DETUNE_MAX
    } else {
        v
    }
}

fn clamp_octave(v: i8) -> (r: i8)
    ensures
        r == cl_octave(v as int),
{
    if v < -OCTAVE_MAX {
        -OCTAVE_MAX
    } else if v > OCTAVE_MAX {
        OCTAVE_MAX
    } else {
        v
    }
}

fn clamp_7bit(v: u8) -> (r: u8)
    ensures
        r == cl_note7(v as int),
{
    if v > 127 {
        127
    } else {
        v
    }
}

/// The sending half of the parameter bus.
#[verifier::external_type_specification]
#[verifier::external_body]
#[verifier::reject_recursive_types(T)]
pub struct ExSender<T>(crossbeam_channel::Sender<T>);

/// The receiving half of the parameter bus.
#[verifier::external_type_specification]
#[verifier::external_body]
#[verifier::reject_recursive_types(T)]
pub struct ExReceiver<T>(crossbeam_channel::Receiver<T>);

/// Relies on crossbeam_channel::unbounded: a connected channel pair whose
/// receiver yields the senders' messages in send order.
#[verifier::external_body]
fn channel_pair() -> (r: (
    crossbeam_channel::Sender<SynthMessage>,
    crossbeam_channel::Receiver<SynthMessage>,
))
{
    crossbeam_channel::unbounded()
}

/// Relies on crossbeam_channel::Sender::clone: another handle sending into
/// the same channel.
#[verifier::external_body]
fn channel_sender_clone(s: &crossbeam_channel::Sender<SynthMessage>) -> (r:
    crossbeam_channel::Sender<SynthMessage>)
{
    s.clone()
}

/// Relies on crossbeam_channel::Sender::send: queues the message, failing
/// only once every receiver is gone. Whether it succeeded is returned.
#[verifier::external_body]
fn channel_send(s: &crossbeam_channel::Sender<SynthMessage>, msg: SynthMessage) -> (r: bool) {
    s.send(msg).is_ok()
}

/// Relies on crossbeam_channel::Receiver::try_recv: pops the oldest queued
/// message without blocking, if one is queued.
#[verifier::external_body]
fn channel_try_recv(r: &crossbeam_channel::Receiver<SynthMessage>) -> (res: Option<SynthMessage>) {
    r.try_recv().ok()
}

/// The parameter bus: producers clone the sender from any thread; one
/// consumer drains messages into the engine with a bounded budget.
pub struct MessageBus {
    sender: crossbeam_channel::Sender<SynthMessage>,
    receiver: crossbeam_channel::Receiver<SynthMessage>,
}

impl MessageBus {
    /// A fresh, empty bus.
    pub fn new() -> (r: MessageBus) {
        let pair = channel_pair();
        MessageBus { sender: pair.0, receiver: pair.1 }
    }

    /// A sender handle that can be cloned and handed to other threads.
    pub fn sender(&self) -> (r: crossbeam_channel::Sender<SynthMessage>) {
        channel_sender_clone(&self.sender)
    }

    /// Post one message; false only if the bus is gone.
    pub fn send(&self, msg: SynthMessage) -> (r: bool) {
        channel_send(&self.sender, msg)
    }

    /// Take the oldest pending message, if any.
    pub fn try_receive(&self) -> (r: Option<SynthMessage>) {
        channel_try_recv(&self.receiver)
    }

    /// Drain at most `max_messages` pending messages into the engine, in
    /// arrival order; whatever remains stays queued for the next drain.
    /// Returns how many were applied.
    pub fn process_messages(&self, synth: &mut Synth, max_messages: usize) -> (count: usize)
        requires
            old(synth).wf(),
        ensures
            count <= max_messages,
            final(synth).wf(),
            final(synth).sample_rate == old(synth).sample_rate,
            final(synth).analyzer.current_waveform_samples@ == old(synth).analyzer.current_waveform_samples@,
            final(synth).custom_wavetables@ == old(synth).custom_wavetables@,
    {
        let mut count: usize = 0;
        while count < max_messages
            invariant
                count <= max_messages,
                synth.wf(),
                synth.sample_rate == old(synth).sample_rate,
                synth.analyzer.current_waveform_samples@ == old(synth).analyzer.current_waveform_samples@,
                synth.custom_wavetables@ == old(synth).custom_wavetables@,
            decreases max_messages - count,
        {
            match self.try_receive() {
                Option::Some(msg) => {
                    MessageBus::handle_message(synth, msg);
                    count = count + 1;
                },
                Option::None => {
                    return count;
                },
            }
        }
        count
    }

    /// Apply one message to the engine. Out-of-range values are clamped
    /// into the engine's accepted ranges; a slot index outside the three
    /// slots is silently ignored; file and preset messages are left to the
    /// embedding application and leave the engine unchanged.
    pub fn handle_message(synth: &mut Synth, msg: SynthMessage)
        requires
            old(synth).wf(),
        ensures
            final(synth).wf(),
            final(synth).sample_rate == old(synth).sample_rate,
            final(synth).analyzer.current_waveform_samples@ == old(synth).analyzer.current_waveform_samples@,
            final(synth).custom_wavetables@ == old(synth).custom_wavetables@,
            match msg {
                SynthMessage::NoteOn(note, velocity) => final(synth).active_notes@
                    == spec_remove_note(
                    old(synth).active_notes@,
                    cl_note7(note as int) as u8,
                ).push(
                    spec_new_note(
                        cl_note7(note as int) as u8,
                        cl_note7(velocity as int) as u8,
                        old(synth).sample_rate,
                    ),
                ) && count_note(final(synth).active_notes@, cl_note7(note as int) as u8) == 1
                    && *final(synth) == (Synth {
                    active_notes: final(synth).active_notes,
                    ..*old(synth)
                }),
                SynthMessage::NoteOff(note) => final(synth).active_notes@.len() == old(synth).active_notes@.len() && (forall|i: int|
                    0 <= i < old(synth).active_notes@.len() ==> #[trigger] final(synth).active_notes@[i] == if old(synth).active_notes@[i].midi_note == note {
                        crate::note::Note {
                            state: crate::note::NoteState::Release,
                            time_in_state: 0,
                            ..old(synth).active_notes@[i]
                        }
                    } else {
                        old(synth).active_notes@[i]
                    }) && *final(synth) == (Synth {
                    active_notes: final(synth).active_notes,
                    ..*old(synth)
                }),
                SynthMessage::ChangeOscillator(index, waveform, volume, detune, octave) => if index
                    < 3 {
                    final(synth).oscillators@ == old(synth).oscillators@.update(
                        index as int,
                        Oscillator {
                            waveform,
                            volume: cl_amp(volume as int) as i64,
                            detune: cl_detune(detune as int) as i64,
                            octave: cl_octave(octave as int) as i8,
                            ..old(synth).oscillators@[index as int]
                        },
                    ) && *final(synth) == (Synth {
                        oscillators: final(synth).oscillators,
                        ..*old(synth)
                    })
                } else {
                    *final(synth) == *old(synth)
                },
                SynthMessage::ChangeOscillatorEnvelope(index, attack, decay, sustain, release) => if
                    index < 3 {
                    final(synth).oscillators@ == old(synth).oscillators@.update(
                        index as int,
                        Oscillator {
                            attack: cl_time(attack as int) as u64,
                            decay: cl_time(decay as int) as u64,
                            sustain: cl_amp(sustain as int) as i64,
                            release: cl_time(release as int) as u64,
                            ..old(synth).oscillators@[index as int]
                        },
                    ) && *final(synth) == (Synth {
                        oscillators: final(synth).oscillators,
                        ..*old(synth)
                    })
                } else {
                    *final(synth) == *old(synth)
                },
                SynthMessage::ChangeOscillatorFilter(index, filter_type, cutoff, resonance) => if
                    index < 3 {
                    final(synth).oscillators@ == old(synth).oscillators@.update(
                        index as int,
                        Oscillator {
                            filter_type,
                            filter_cutoff: cl_amp(cutoff as int) as i64,
                            filter_resonance: cl_amp(resonance as int) as i64,
                            ..old(synth).oscillators@[index as int]
                        },
                    ) && *final(synth) == (Synth {
                        oscillators: final(synth).oscillators,
                        ..*old(synth)
                    })
                } else {
                    *final(synth) == *old(synth)
                },
                SynthMessage::ChangeOscillatorModulation(index, amount, target) => if index < 3 {
                    final(synth).oscillators@ == old(synth).oscillators@.update(
                        index as int,
                        Oscillator {
                            mod_amount: cl_amp(amount as int) as i64,
                            mod_target: target,
                            ..old(synth).oscillators@[index as int]
                        },
                    ) && *final(synth) == (Synth {
                        oscillators: final(synth).oscillators,
                        ..*old(synth)
                    })
                } else {
                    *final(synth) == *old(synth)
                },
                SynthMessage::ChangeOscillatorCombinationMode(mode) => *final(synth) == (Synth {
                    oscillator_combination_mode: mode,
                    ..*old(synth)
                }),
                SynthMessage::ChangeMasterEnvelope(attack, decay, sustain, release) => *final(synth)
                    == (Synth {
                    attack: cl_time(attack as int) as u64,
                    decay: cl_time(decay as int) as u64,
                    sustain: cl_amp(sustain as int) as i64,
                    release: cl_time(release as int) as u64,
                    ..*old(synth)
                }),
                SynthMessage::ChangeMasterFilter(filter_type, cutoff, resonance) => *final(synth)
                    == (Synth {
                    master_filter_type: filter_type,
                    master_filter_cutoff: cl_amp(cutoff as int) as i64,
                    master_filter_resonance: cl_amp(resonance as int) as i64,
                    ..*old(synth)
                }),
                SynthMessage::SetVolume(volume) => *final(synth) == (Synth {
                    volume: cl_amp(volume as int) as i64,
                    ..*old(synth)
                }),
                SynthMessage::SetModulation(amount) => final(synth).oscillators@.len() == 3 && (
                forall|i: int|
                    0 <= i < 3 ==> #[trigger] final(synth).oscillators@[i] == if old(synth).oscillators@[i].mod_target != ModulationTarget::Off {
                        Oscillator {
                            mod_amount: cl_amp(amount as int) as i64,
                            ..old(synth).oscillators@[i]
                        }
                    } else {
                        old(synth).oscillators@[i]
                    }) && *final(synth) == (Synth {
                    oscillators: final(synth).oscillators,
                    ..*old(synth)
                }),
                SynthMessage::SetPitchBend(value) => final(synth).oscillators@.len() == 3 && (
                forall|i: int|
                    0 <= i < 3 ==> #[trigger] final(synth).oscillators@[i] == (Oscillator {
                        pitch_bend: cl_bend(value as int) as i64,
                        ..old(synth).oscillators@[i]
                    })) && *final(synth) == (Synth {
                    oscillators: final(synth).oscillators,
                    ..*old(synth)
                }),
                _ => *final(synth) == *old(synth),
            },
    {
        match msg {
            SynthMessage::NoteOn(note, velocity) => {
                synth.note_on(clamp_7bit(note), clamp_7bit(velocity));
            },
            SynthMessage::NoteOff(note) => {
                synth.note_off(note);
            },
            SynthMessage::ChangeOscillator(index, waveform, volume, detune, octave) => {
                if index < 3 {
                    let mut o: Oscillator = synth.oscillators[index];
                    o.waveform = waveform;
                    o.volume = clamp_amp(volume);
                    o.detune = clamp_detune(detune);
                    o.octave = clamp_octave(octave);
                    synth.oscillators[index] = o;
                }
            },
            SynthMessage::ChangeOscillatorEnvelope(index, attack, decay, sustain, release) => {
                if index < 3 {
                    let mut o: Oscillator = synth.oscillators[index];
                    o.attack = clamp_time(attack);
                    o.decay = clamp_time(decay);
                    o.sustain = clamp_amp(sustain);
                    o.release = clamp_time(release);
                    synth.oscillators[index] = o;
                }
            },
            SynthMessage::ChangeOscillatorFilter(index, filter_type, cutoff, resonance) => {
                if index < 3 {
                    let mut o: Oscillator = synth.oscillators[index];
                    o.filter_type = filter_type;
                    o.filter_cutoff = clamp_amp(cutoff);
                    o.filter_resonance = clamp_amp(resonance);
                    synth.oscillators[index] = o;
                }
            },
            SynthMessage::ChangeOscillatorModulation(index, amount, target) => {
                if index < 3 {
                    let mut o: Oscillator = synth.oscillators[index];
                    o.mod_amount = clamp_amp(amount);
                    o.mod_target = target;
                    synth.oscillators[index] = o;
                }
            },
            SynthMessage::ChangeOscillatorCombinationMode(mode) => {
                synth.oscillator_combination_mode = mode;
            },
            SynthMessage::ChangeMasterEnvelope(attack, decay, sustain, release) => {
                synth.attack = clamp_time(attack);
                synth.decay = clamp_time(decay);
                synth.sustain = clamp_amp(sustain);
                synth.release = clamp_time(release);
            },
            SynthMessage::ChangeMasterFilter(filter_type, cutoff, resonance) => {
                synth.master_filter_type = filter_type;
                synth.master_filter_cutoff = clamp_amp(cutoff);
                synth.master_filter_resonance = clamp_amp(resonance);
            },
            SynthMessage::SetVolume(volume) => {
                synth.set_volume(volume);
            },
            SynthMessage::SetModulation(amount) => {
                let a: i64 = clamp_amp(amount);
                let mut i: usize = 0;
                while i < 3
                    invariant
                        i <= 3,
                        old(synth).wf(),
                        synth.oscillators@.len() == 3,
                        a == cl_amp(amount as int),
                        *synth == (Synth { oscillators: synth.oscillators, ..*old(synth) }),
                        forall|j: int|
                            i <= j < 3 ==> #[trigger] synth.oscillators@[j] == old(synth).oscillators@[j],
                        forall|j: int|
                            0 <= j < i ==> #[trigger] synth.oscillators@[j] == if old(synth).oscillators@[j].mod_target != ModulationTarget::Off {
                                Oscillator { mod_amount: a, ..old(synth).oscillators@[j] }
                            } else {
                                old(synth).oscillators@[j]
                            },
                    decreases 3 - i,
                {
                    if !matches!(synth.oscillators[i].mod_target, ModulationTarget::Off) {
                        let mut o: Oscillator = synth.oscillators[i];
                        o.mod_amount = a;
                        synth.oscillators[i] = o;
                    }
                    i = i + 1;
                }
            },
            SynthMessage::SetSustainPedal(on) => {
                synth.set_sustain_pedal(on);
            },
            SynthMessage::SetPitchBend(value) => {
                let b: i64 = clamp_bend(value);
                let mut i: usize = 0;
                while i < 3
                    invariant
                        i <= 3,
                        old(synth).wf(),
                        synth.oscillators@.len() == 3,
                        b == cl_bend(value as int),
                        *synth == (Synth { oscillators: synth.oscillators, ..*old(synth) }),
                        forall|j: int|
                            i <= j < 3 ==> #[trigger] synth.oscillators@[j] == old(synth).oscillators@[j],
                        forall|j: int|
                            0 <= j < i ==> #[trigger] synth.oscillators@[j] == (Oscillator {
                                pitch_bend: b,
                                ..old(synth).oscillators@[j]
                            }),
                    decreases 3 - i,
                {
                    let mut o: Oscillator = synth.oscillators[i];
                    o.pitch_bend = b;
                    synth.oscillators[i] = o;
                    i = i + 1;
                }
            },
            _ => {},
        }
    }
}

} // verus!

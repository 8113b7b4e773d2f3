//! The parameter bus and MIDI decoding, encoding and mapping.

use rustsynth::filter::FilterType;
use rustsynth::fixed::AMP_ONE;
use rustsynth::messaging::{MessageBus, SynthMessage};
use rustsynth::midi::{
    control_change_bytes, handle_midi_message, note_off_bytes, note_on_bytes,
    pitch_bend_bytes, program_change_bytes, MidiControlTarget, MidiController, MidiMapping,
};
use rustsynth::modulation::ModulationTarget;
use rustsynth::synth::Synth;
use rustsynth::waveform::Waveform;

#[test]
fn pitch_bend_decodes_center_and_extremes() {
    // Bytes (0, 64) mean bend 8192, the exact center.
    let msg = handle_midi_message(&[0xE0, 0, 64]);
    assert!(matches!(msg, Some(SynthMessage::SetPitchBend(0))));
    // Bytes (127, 127) mean bend 16383, just shy of +1.
    let msg = handle_midi_message(&[0xE1, 127, 127]);
    assert!(matches!(msg, Some(SynthMessage::SetPitchBend(65528))));
    // Bytes (0, 0) mean bend 0, exactly -1.
    let msg = handle_midi_message(&[0xE0, 0, 0]);
    assert!(matches!(msg, Some(SynthMessage::SetPitchBend(-65536))));
}

#[test]
fn note_messages_decode() {
    assert!(matches!(
        handle_midi_message(&[0x90, 60, 100]),
        Some(SynthMessage::NoteOn(60, 100))
    ));
    assert!(matches!(
        handle_midi_message(&[0x80, 60, 0]),
        Some(SynthMessage::NoteOff(60))
    ));
    // A zero-velocity note-on counts as note-off.
    assert!(matches!(
        handle_midi_message(&[0x93, 61, 0]),
        Some(SynthMessage::NoteOff(61))
    ));
    assert!(handle_midi_message(&[0x90]).is_none());
    assert!(handle_midi_message(&[]).is_none());
}

#[test]
fn control_changes_decode() {
    // Modulation wheel at full depth.
    assert!(matches!(
        handle_midi_message(&[0xB0, 1, 127]),
        Some(SynthMessage::SetModulation(65536))
    ));
    // Channel volume at half depth: 64 * 65536 / 127.
    assert!(matches!(
        handle_midi_message(&[0xB0, 7, 64]),
        Some(SynthMessage::SetVolume(33026))
    ));
    // The sustain pedal threshold sits at 64.
    assert!(matches!(
        handle_midi_message(&[0xB0, 64, 64]),
        Some(SynthMessage::SetSustainPedal(true))
    ));
    assert!(matches!(
        handle_midi_message(&[0xB0, 64, 63]),
        Some(SynthMessage::SetSustainPedal(false))
    ));
    // An unmapped controller number decodes to nothing.
    assert!(handle_midi_message(&[0xB0, 11, 64]).is_none());
    // Channel pressure carries one data byte.
    assert!(matches!(
        handle_midi_message(&[0xD0, 127]),
        Some(SynthMessage::SetChannelPressure(65536))
    ));
    // Aftertouch names a note.
    assert!(matches!(
        handle_midi_message(&[0xA0, 60, 127]),
        Some(SynthMessage::SetAftertouch(60, 65536))
    ));
}

#[test]
fn packets_encode_with_status_and_channel() {
    assert_eq!(note_on_bytes(2, 60, 100), [0x92, 60, 100]);
    assert_eq!(note_off_bytes(2, 60, 0), [0x82, 60, 0]);
    assert_eq!(control_change_bytes(0, 7, 127), [0xB0, 7, 127]);
    // A centered bend encodes back to the center bytes.
    assert_eq!(pitch_bend_bytes(0, 0), [0xE0, 0, 64]);
}

#[test]
fn bounded_drain_applies_only_its_budget() {
    let mut synth = Synth::new(44100);
    let bus = MessageBus::new();
    for k in 1..=15i64 {
        assert!(bus.send(SynthMessage::SetVolume(1000 + k)));
    }
    let applied = bus.process_messages(&mut synth, 10);
    assert_eq!(applied, 10);
    // The last applied message was the tenth.
    assert_eq!(synth.volume, 1010);
    // Five messages stayed queued for the next drain.
    let mut left = 0;
    while let Some(msg) = bus.try_receive() {
        assert!(matches!(msg, SynthMessage::SetVolume(_)));
        left += 1;
    }
    assert_eq!(left, 5);
}

#[test]
fn drain_on_an_empty_bus_applies_nothing() {
    let mut synth = Synth::new(44100);
    let bus = MessageBus::new();
    assert_eq!(bus.process_messages(&mut synth, 10), 0);
}

#[test]
fn senders_feed_the_same_bus() {
    let mut synth = Synth::new(44100);
    let bus = MessageBus::new();
    let sender = bus.sender();
    sender.send(SynthMessage::SetVolume(4321)).unwrap();
    assert_eq!(bus.process_messages(&mut synth, 10), 1);
    assert_eq!(synth.volume, 4321);
}

#[test]
fn out_of_range_slot_indices_are_ignored() {
    let mut synth = Synth::new(44100);
    let before = synth.oscillators[0].volume;
    MessageBus::handle_message(
        &mut synth,
        SynthMessage::ChangeOscillator(5, Waveform::Saw, 100, 0, 0),
    );
    assert_eq!(synth.oscillators[0].volume, before);
    assert!(matches!(synth.oscillators[0].waveform, Waveform::Sine));
}

#[test]
fn messages_update_the_engine() {
    let mut synth = Synth::new(44100);
    MessageBus::handle_message(
        &mut synth,
        SynthMessage::ChangeOscillator(1, Waveform::Triangle, 70000, -99, 2),
    );
    assert!(matches!(synth.oscillators[1].waveform, Waveform::Triangle));
    // Volume was clamped into full scale.
    assert_eq!(synth.oscillators[1].volume, AMP_ONE);
    assert_eq!(synth.oscillators[1].detune, -99);
    assert_eq!(synth.oscillators[1].octave, 2);
    MessageBus::handle_message(
        &mut synth,
        SynthMessage::ChangeMasterFilter(FilterType::LowPass, 30000, 100),
    );
    assert!(matches!(synth.master_filter_type, FilterType::LowPass));
    assert_eq!(synth.master_filter_cutoff, 30000);
    MessageBus::handle_message(&mut synth, SynthMessage::NoteOn(60, 100));
    assert_eq!(synth.active_notes.len(), 1);
    MessageBus::handle_message(&mut synth, SynthMessage::SetPitchBend(12345));
    assert_eq!(synth.oscillators[0].pitch_bend, 12345);
    assert_eq!(synth.oscillators[2].pitch_bend, 12345);
}

#[test]
fn modulation_broadcast_reaches_only_wired_slots() {
    let mut synth = Synth::new(44100);
    MessageBus::handle_message(
        &mut synth,
        SynthMessage::ChangeOscillatorModulation(0, 100, ModulationTarget::Volume),
    );
    MessageBus::handle_message(&mut synth, SynthMessage::SetModulation(20000));
    assert_eq!(synth.oscillators[0].mod_amount, 20000);
    assert_eq!(synth.oscillators[1].mod_amount, 0);
    assert_eq!(synth.oscillators[2].mod_amount, 0);
}

#[test]
fn default_mapping_drives_master_volume() {
    let mapping = MidiMapping::create_default();
    let msg = mapping.apply_midi_cc(0, 7, 127, FilterType::Off, AMP_ONE, 0);
    assert!(matches!(msg, Some(SynthMessage::SetVolume(65536))));
    let msg = mapping.apply_midi_cc(0, 74, 0, FilterType::Off, AMP_ONE, 0);
    assert!(matches!(
        msg,
        Some(SynthMessage::ChangeMasterFilter(FilterType::Off, 0, 0))
    ));
    // An unmapped controller produces nothing.
    assert!(mapping.apply_midi_cc(0, 99, 64, FilterType::Off, AMP_ONE, 0).is_none());
}

#[test]
fn mapping_ranges_and_inversion_shape_the_value() {
    let mut mapping = MidiMapping::new();
    let knob = MidiController { channel: 0, cc_number: 21 };
    mapping.add_mapping(knob, MidiControlTarget::MasterVolume);
    assert!(matches!(
        mapping.process_midi_value(&knob, 127),
        Some(65536)
    ));
    mapping.set_range(&knob, 0, 32768);
    assert!(matches!(
        mapping.process_midi_value(&knob, 127),
        Some(32768)
    ));
    mapping.set_invert(&knob, true);
    // Inverting full deflection lands on 1 - 0.5 = 0.5, held in range.
    assert!(matches!(
        mapping.process_midi_value(&knob, 127),
        Some(32768)
    ));
    assert!(matches!(mapping.process_midi_value(&knob, 0), Some(32768)));
    mapping.remove_mapping(&knob);
    assert!(mapping.apply_midi_cc(0, 21, 64, FilterType::Off, AMP_ONE, 0).is_none());
}

#[test]
fn program_change_encodes_two_bytes() {
    assert_eq!(program_change_bytes(3, 42), [0xC3, 42]);
}

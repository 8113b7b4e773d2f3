//! Engine lifecycle: voices, rendering, the analyzer ring, wavetable
//! loading, presets and visualization.

use rustsynth::analyzer::{Analyzer, SAMPLE_BUFFER_SIZE};
use rustsynth::combination::{combine_oscillators, OscillatorCombinationMode};
use rustsynth::fixed::AMP_ONE;
use rustsynth::note::{Note, NoteState, Voice};
use rustsynth::oscillator::{process_oscillator, Oscillator};
use rustsynth::samples::normalize_samples;
use rustsynth::synth::Synth;
use rustsynth::visualization::{
    generate_spectrum_display, generate_waveform_preview, generate_wavetable_display,
};
use rustsynth::waveform::Waveform;

#[test]
fn note_on_does_not_stack_voices() {
    let mut synth = Synth::new(44100);
    synth.note_on(60, 100);
    synth.note_on(60, 90);
    assert_eq!(synth.active_notes.len(), 1);
    assert_eq!(synth.active_notes[0].midi_note, 60);
    synth.note_on(64, 100);
    assert_eq!(synth.active_notes.len(), 2);
    synth.note_on(60, 80);
    assert_eq!(synth.active_notes.len(), 2);
}

#[test]
fn note_off_starts_the_release_ramp() {
    let mut synth = Synth::new(44100);
    synth.note_on(60, 100);
    synth.note_off(60);
    assert_eq!(synth.active_notes.len(), 1);
    assert!(matches!(synth.active_notes[0].state, NoteState::Release));
    assert_eq!(synth.active_notes[0].time_in_state, 0);
}

#[test]
fn released_voice_is_removed_after_its_ramp() {
    let mut synth = Synth::new(44100);
    synth.note_on(69, 127);
    synth.note_off(69);
    // The default release is 0.3 s; a second of samples is ample.
    for i in 0..44100u64 {
        synth.get_sample(i * 97391);
        if synth.active_notes.is_empty() {
            break;
        }
    }
    assert!(synth.active_notes.is_empty());
}

#[test]
fn silent_engine_renders_zero() {
    let mut synth = Synth::new(44100);
    assert_eq!(synth.get_sample(0), 0);
    assert_eq!(synth.analyzer.current_waveform_samples.len(), 1);
}

#[test]
fn rendering_stays_within_scale_headroom() {
    let mut synth = Synth::new(44100);
    synth.note_on(60, 127);
    synth.note_on(64, 127);
    synth.note_on(67, 127);
    for i in 0..2048u64 {
        let s = synth.get_sample(i * 97391);
        assert!(-0x4000_0000 <= s && s <= 0x4000_0000);
    }
}

#[test]
fn analyzer_ring_never_exceeds_capacity_and_drops_oldest() {
    let mut analyzer = Analyzer::new();
    for i in 0..(SAMPLE_BUFFER_SIZE as i64 + 6) {
        analyzer.push_sample(i);
    }
    assert_eq!(analyzer.current_waveform_samples.len(), SAMPLE_BUFFER_SIZE);
    // The first six samples were evicted, oldest first.
    assert_eq!(analyzer.current_waveform_samples[0], 6);
    assert_eq!(
        analyzer.current_waveform_samples[SAMPLE_BUFFER_SIZE - 1],
        SAMPLE_BUFFER_SIZE as i64 + 5
    );
}

#[test]
fn analyzer_fills_through_rendering() {
    let mut synth = Synth::new(44100);
    for i in 0..3000u64 {
        synth.get_sample(i * 97391);
    }
    assert_eq!(synth.analyzer.current_waveform_samples.len(), SAMPLE_BUFFER_SIZE);
}

#[test]
fn normalization_scales_half_scale_to_full() {
    let mut buf = vec![16384, -32768, 8192];
    normalize_samples(&mut buf);
    assert_eq!(buf, vec![32768, -65536, 16384]);
    let max = buf.iter().map(|s| s.abs()).max().unwrap();
    assert_eq!(max, AMP_ONE);
}

#[test]
fn normalization_leaves_silence_alone() {
    let mut buf = vec![0, 0, 0, 0];
    normalize_samples(&mut buf);
    assert_eq!(buf, vec![0, 0, 0, 0]);
}

#[test]
fn wavetable_store_evicts_oldest_at_capacity() {
    let mut synth = Synth::new(44100);
    for k in 0..9 {
        let name = format!("table{}", k);
        synth.load_sample(name, vec![1000, -2000, 3000], 22050);
    }
    assert_eq!(synth.custom_wavetables.len(), 8);
    assert_eq!(synth.custom_wavetables[0].name, "table1");
    assert_eq!(synth.custom_wavetables[7].name, "table8");
    // The loaded data was normalized to full scale.
    let max = synth.custom_wavetables[0]
        .samples
        .iter()
        .map(|s| s.abs())
        .max()
        .unwrap();
    assert_eq!(max, AMP_ONE);
}

#[test]
fn parallel_and_ring_combinations_on_half_scale() {
    let oscillators = vec![Oscillator::new(), Oscillator::new(), Oscillator::new()];
    let outputs = [32768, 32768, 32768];
    // Three half-scale oscillators in parallel give 1.5.
    assert_eq!(
        combine_oscillators(&outputs, &oscillators, &OscillatorCombinationMode::Parallel, 0),
        98304
    );
    // Ring modulation of three half-scale signals gives 1/8.
    assert_eq!(
        combine_oscillators(&outputs, &oscillators, &OscillatorCombinationMode::RingMod, 0),
        8192
    );
    // Amplitude modulation gives 0.5 * 1.5 * 1.5 * 0.5 = 0.5625.
    assert_eq!(
        combine_oscillators(&outputs, &oscillators, &OscillatorCombinationMode::AM, 0),
        36864
    );
}

#[test]
fn noise_oscillator_output_stays_bounded() {
    let mut osc = Oscillator::new();
    osc.waveform = Waveform::WhiteNoise;
    osc.volume = AMP_ONE;
    let wavetables = Vec::new();
    for phase in [0u64, 1_000_000, 2_000_000_000] {
        let out = process_oscillator(&osc, phase, 0, &wavetables, NoteState::Sustain, 0);
        assert!(-131072 <= out && out <= 131072);
    }
}

#[test]
fn muted_oscillator_is_silent() {
    let mut osc = Oscillator::new();
    osc.volume = 0;
    let wavetables = Vec::new();
    assert_eq!(
        process_oscillator(&osc, 12345, 0, &wavetables, NoteState::Sustain, 0),
        0
    );
}

#[test]
fn preset_round_trips_the_configuration() {
    let mut synth = Synth::new(48000);
    let preset = synth.create_preset(String::from("warm pad"));
    assert_eq!(preset.name, "warm pad");
    synth.set_volume(12345);
    synth.oscillators[0].volume = 11111;
    synth.attack = 5;
    synth.apply_preset(&preset);
    assert_eq!(synth.volume, 32768);
    assert_eq!(synth.oscillators[0].volume, 32768);
    assert_eq!(synth.attack, 429496729);
}

#[test]
fn display_points_have_fixed_sizes() {
    let synth = Synth::new(44100);
    assert_eq!(synth.generate_waveform_display().len(), 200);
    assert_eq!(synth.generate_wavetable_display().len(), 200);
    let lines = synth.generate_pitch_wavetable();
    assert_eq!(lines.len(), 12);
    for line in &lines {
        assert_eq!(line.len(), 64);
    }
    assert_eq!(generate_spectrum_display(&Vec::new(), 44100).len(), 128);
}

#[test]
fn waveform_preview_traces_the_wave() {
    let points = generate_waveform_preview(&Waveform::Saw, 0, 0, &Vec::new());
    assert_eq!(points.len(), 100);
    // The saw starts a cycle at -1, and x positions spread over the window.
    assert_eq!(points[0], (0, -65536));
    assert_eq!(points[50].0, 50 * 65536 / 100);
    assert_eq!(points[50].1, 0);
}

#[test]
fn wavetable_display_of_sines_starts_at_zero() {
    let oscillators = vec![Oscillator::new(), Oscillator::new(), Oscillator::new()];
    let points = generate_wavetable_display(
        &oscillators,
        &OscillatorCombinationMode::Parallel,
        &Vec::new(),
    );
    assert_eq!(points.len(), 200);
    assert_eq!(points[0].1, 0);
}

#[test]
fn empty_analyzer_draws_a_flat_line() {
    let synth = Synth::new(44100);
    let points = synth.generate_waveform_display();
    for p in &points {
        assert_eq!(p.1, 0);
    }
}

#[test]
fn voice_slots_track_press_and_release() {
    let mut voice = Voice::new(60, 100);
    assert!(voice.is_active());
    assert!(matches!(voice.state, NoteState::Pressed));
    voice.release();
    assert!(matches!(voice.state, NoteState::Released));
    assert!(voice.is_active());
    voice.state = NoteState::Off;
    assert!(!voice.is_active());
    let placeholder = Note::default();
    assert!(matches!(placeholder.state, NoteState::Off));
    assert_eq!(placeholder.frequency, 440 * 65536);
}

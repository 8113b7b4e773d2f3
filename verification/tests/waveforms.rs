//! Waveform, envelope, filter and tuning behavior on concrete values.

use rustsynth::envelope::{Envelope, EnvelopeStage};
use rustsynth::filter::{apply_filter, FilterState, FilterType};
use rustsynth::fixed::AMP_ONE;
use rustsynth::modulation::{ModulationState, ModulationTarget};
use rustsynth::oscillator::Oscillator;
use rustsynth::tuning::{freq_to_midi_note, midi_note_to_freq};
use rustsynth::waveform::{Waveform, PHASE_HALF, PHASE_ONE, PHASE_QUARTER};

#[test]
fn sine_hits_quadrant_boundaries() {
    let w = Waveform::Sine;
    assert_eq!(w.sample(0, None), 0);
    assert_eq!(w.sample(PHASE_QUARTER, None), AMP_ONE);
    assert_eq!(w.sample(PHASE_HALF, None), 0);
    assert_eq!(w.sample(3 * PHASE_QUARTER, None), -AMP_ONE);
}

#[test]
fn sine_stays_within_full_scale() {
    let w = Waveform::Sine;
    let mut phase: u64 = 0;
    while phase < PHASE_ONE {
        let v = w.sample(phase, None);
        assert!(-AMP_ONE <= v && v <= AMP_ONE);
        phase += 7_777_777;
    }
}

#[test]
fn square_matches_piecewise_formula_at_boundaries() {
    let w = Waveform::Square;
    assert_eq!(w.sample(0, None), AMP_ONE);
    assert_eq!(w.sample(PHASE_QUARTER, None), AMP_ONE);
    assert_eq!(w.sample(PHASE_HALF, None), -AMP_ONE);
    assert_eq!(w.sample(3 * PHASE_QUARTER, None), -AMP_ONE);
}

#[test]
fn saw_matches_piecewise_formula_at_boundaries() {
    let w = Waveform::Saw;
    assert_eq!(w.sample(0, None), -AMP_ONE);
    assert_eq!(w.sample(PHASE_QUARTER, None), -AMP_ONE / 2);
    assert_eq!(w.sample(PHASE_HALF, None), 0);
    assert_eq!(w.sample(3 * PHASE_QUARTER, None), AMP_ONE / 2);
}

#[test]
fn triangle_matches_piecewise_formula_at_boundaries() {
    let w = Waveform::Triangle;
    assert_eq!(w.sample(0, None), 0);
    assert_eq!(w.sample(PHASE_QUARTER, None), AMP_ONE);
    assert_eq!(w.sample(PHASE_HALF, None), 0);
    assert_eq!(w.sample(3 * PHASE_QUARTER, None), -AMP_ONE);
}

#[test]
fn preview_noise_is_repeatable() {
    let w = Waveform::WhiteNoise;
    for phase in [0u64, 123_456, 99_999_999, PHASE_ONE - 1] {
        let a = w.sample(phase, None);
        let b = w.sample(phase, None);
        assert_eq!(a, b);
        assert!(-AMP_ONE <= a && a <= AMP_ONE);
    }
}

#[test]
fn custom_sample_preview_reads_nearest_sample() {
    let table = vec![100, 200, 300, 400];
    let w = Waveform::CustomSample(0);
    assert_eq!(w.sample(0, Some(&table)), 100);
    assert_eq!(w.sample(PHASE_QUARTER, Some(&table)), 200);
    assert_eq!(w.sample(PHASE_HALF, Some(&table)), 300);
    assert_eq!(w.sample(3 * PHASE_QUARTER, Some(&table)), 400);
    assert_eq!(w.sample(PHASE_HALF, None), 0);
}

#[test]
fn attack_ramp_is_monotone_and_caps_at_one() {
    let env = Envelope::new();
    let mut last = -1;
    for k in 0..20u64 {
        let t = k * (env.attack / 10);
        let v = env.value_at_stage(EnvelopeStage::Attack, t);
        assert!(v >= last);
        assert!(v <= AMP_ONE);
        last = v;
    }
    assert_eq!(env.value_at_stage(EnvelopeStage::Attack, env.attack), AMP_ONE);
}

#[test]
fn envelope_stage_levels() {
    let env = Envelope::new();
    assert_eq!(env.value_at_stage(EnvelopeStage::Attack, 0), 0);
    assert_eq!(env.value_at_stage(EnvelopeStage::Sustain, 12345), env.sustain);
    assert_eq!(env.value_at_stage(EnvelopeStage::Decay, 0), AMP_ONE);
    assert_eq!(env.value_at_stage(EnvelopeStage::Release, 0), env.sustain);
    assert_eq!(env.value_at_stage(EnvelopeStage::Release, env.release), 0);
    assert_eq!(env.value_at_stage(EnvelopeStage::Idle, 999), 0);
}

#[test]
fn filter_factors_on_known_cutoffs() {
    // A quarter-scale cutoff has exactly a half-scale square root.
    assert_eq!(apply_filter(AMP_ONE, &FilterType::LowPass, 16384), 32768);
    assert_eq!(apply_filter(AMP_ONE, &FilterType::HighPass, 16384), 32768);
    // A centered band-pass passes the sample through.
    assert_eq!(apply_filter(12345, &FilterType::BandPass, 32768), 12345);
    // The notch at center removes everything.
    assert_eq!(apply_filter(12345, &FilterType::Notch, 32768), 0);
    // No filter passes everything through.
    assert_eq!(apply_filter(-54321, &FilterType::Off, 100), -54321);
}

#[test]
fn filter_never_grows_the_sample() {
    for cutoff in [0, 655, 10_000, 32768, 64881, 65536] {
        for kind in [
            FilterType::Off,
            FilterType::LowPass,
            FilterType::HighPass,
            FilterType::BandPass,
            FilterType::Notch,
        ] {
            let r = apply_filter(50_000, &kind, cutoff);
            assert!(0 <= r && r <= 50_000);
            let r2 = apply_filter(-50_000, &kind, cutoff);
            assert!(-50_000 <= r2 && r2 <= 0);
        }
    }
}

#[test]
fn reference_pitches_are_exact() {
    assert_eq!(midi_note_to_freq(69), 440 * 65536);
    assert_eq!(midi_note_to_freq(81), 880 * 65536);
    assert_eq!(midi_note_to_freq(57), 220 * 65536);
}

#[test]
fn note_frequencies_increase() {
    let mut last = 0u64;
    for n in 0..128u8 {
        let f = midi_note_to_freq(n);
        assert!(f > last);
        last = f;
    }
}

#[test]
fn nearest_note_round_trips() {
    for n in [0u8, 12, 57, 69, 81, 100, 127] {
        assert_eq!(freq_to_midi_note(midi_note_to_freq(n)), n);
    }
    assert_eq!(freq_to_midi_note(440 * 65536 + 300), 69);
}

#[test]
fn filter_state_is_stateless() {
    let mut state = FilterState::new();
    assert!(matches!(state.filter_type, FilterType::Off));
    assert_eq!(state.process(4242), 4242);
    state.filter_type = FilterType::LowPass;
    state.cutoff = 16384;
    assert_eq!(state.process(AMP_ONE), 32768);
    assert_eq!(state.process(AMP_ONE), 32768);
}

#[test]
fn modulation_off_passes_the_base_through() {
    let state = ModulationState::new();
    assert_eq!(state.apply(12345, 987654321), 12345);
    let mut wired = ModulationState::new();
    wired.target = ModulationTarget::Volume;
    wired.amount = AMP_ONE;
    for t in [0u64, 1 << 30, 1 << 33, 1 << 40] {
        let v = wired.apply(32768, t);
        assert!(0 <= v && v <= 65536);
    }
    // At time zero the LFO sits at phase zero, so the base passes through.
    assert_eq!(wired.apply(32768, 0), 32768);
}

#[test]
fn oscillator_exposes_its_envelope_and_multiplier() {
    let mut osc = Oscillator::new();
    let env = osc.get_envelope();
    assert_eq!(env.attack, osc.attack);
    assert_eq!(env.sustain, osc.sustain);
    // No detune and no octave shift multiply by exactly one.
    assert_eq!(osc.get_frequency_multiplier(), 65536);
    // One octave up doubles the rate.
    osc.octave = 1;
    assert_eq!(osc.get_frequency_multiplier(), 131072);
    // Twelve semitones of detune do the same.
    osc.octave = 0;
    osc.detune = 12 * 65536;
    assert_eq!(osc.get_frequency_multiplier(), 131072);
}

#[test]
fn sine_mirrors_across_half_a_cycle() {
    let w = Waveform::Sine;
    for phase in [0u64, 10_000_000, 500_000_000, PHASE_HALF - 1] {
        assert_eq!(w.sample(phase + PHASE_HALF, None), -w.sample(phase, None));
    }
}

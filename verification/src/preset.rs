//! Presets: a named snapshot of the full oscillator and master
//! configuration that can be taken from an engine and applied back.

use vstd::prelude::*;
use crate::combination::OscillatorCombinationMode;
use crate::envelope::env_params_ok;
use crate::filter::FilterType;
use crate::fixed::AMP_ONE;
use crate::oscillator::Oscillator;
use crate::synth::Synth;

verus! {

/// A complete snapshot of the engine's configuration.
pub struct SynthPreset {
    /// Display name of the preset.
    pub name: String,
    /// The three oscillator slots.
    pub oscillators: Vec<Oscillator>,
    pub oscillator_combination_mode: OscillatorCombinationMode,
    /// Q32 seconds of master envelope attack.
    pub attack: u64,
    /// Q32 seconds of master envelope decay.
    pub decay: u64,
    /// Q16 master envelope sustain level.
    pub sustain: i64,
    /// Q32 seconds of master envelope release.
    pub release: u64,
    pub master_filter_type: FilterType,
    /// Q16 master filter cutoff.
    pub master_filter_cutoff: i64,
    /// Q16 master filter resonance.
    pub master_filter_resonance: i64,
    /// Q16 master volume.
    pub volume: i64,
}

impl SynthPreset {
    /// The ranges a preset must keep to be applied.
    pub open spec fn wf(self) -> bool {
        &&& self.oscillators.len() == 3
        &&& (forall|i: int| 0 <= i < 3 ==> (#[trigger] self.oscillators@[i]).wf())
        &&& env_params_ok(self.attack, self.decay, self.sustain, self.release)
        &&& 0 <= self.master_filter_cutoff <= AMP_ONE
        &&& 0 <= self.master_filter_resonance <= AMP_ONE
        &&& 0 <= self.volume <= AMP_ONE
    }

    /// A named preset with the default engine configuration.
    pub fn new(name: String) -> (r: SynthPreset)
        ensures
            r.name@ == name@,
            r.oscillators@.len() == 3,
            r.oscillator_combination_mode == OscillatorCombinationMode::Parallel,
            r.wf(),
    {
        let mut oscillators: Vec<Oscillator> = Vec::new();
        oscillators.push(Oscillator::new());
        oscillators.push(Oscillator::new());
        oscillators.push(Oscillator::new());
        SynthPreset {
            name,
            oscillators,
            oscillator_combination_mode: OscillatorCombinationMode::Parallel,
            attack: 429496729,
            decay: 858993459,
            sustain: 45875,
            release: 1288490188,
            master_filter_type: FilterType::Off,
            master_filter_cutoff: AMP_ONE,
            master_filter_resonance: 0,
            volume: 32768,
        }
    }
}

impl Synth {
    /// Snapshot the engine's configuration under the given name.
    pub fn create_preset(&self, name: String) -> (r: SynthPreset)
        requires
            self.wf(),
        ensures
            r.name@ == name@,
            r.oscillators@ == self.oscillators@,
            r.oscillator_combination_mode == self.oscillator_combination_mode,
            r.attack == self.attack,
            r.decay == self.decay,
            r.sustain == self.sustain,
            r.release == self.release,
            r.master_filter_type == self.master_filter_type,
            r.master_filter_cutoff == self.master_filter_cutoff,
            r.master_filter_resonance == self.master_filter_resonance,
            r.volume == self.volume,
            r.wf(),
    {
        SynthPreset {
            name,
            oscillators: self.oscillators.clone(),
            oscillator_combination_mode: self.oscillator_combination_mode,
            attack: self.attack,
            decay: self.decay,
            sustain: self.sustain,
            release: self.release,
            master_filter_type: self.master_filter_type,
            master_filter_cutoff: self.master_filter_cutoff,
            master_filter_resonance: self.master_filter_resonance,
            volume: self.volume,
        }
    }

    /// Replace the engine's configuration by a preset's; the sounding
    /// voices, wavetables and analyzer are untouched.
    pub fn apply_preset(&mut self, preset: &SynthPreset)
        requires
            old(self).wf(),
            preset.wf(),
        ensures
            final(self).oscillators@ == preset.oscillators@,
            final(self).oscillator_combination_mode == preset.oscillator_combination_mode,
            final(self).attack == preset.attack,
            final(self).decay == preset.decay,
            final(self).sustain == preset.sustain,
            final(self).release == preset.release,
            final(self).master_filter_type == preset.master_filter_type,
            final(self).master_filter_cutoff == preset.master_filter_cutoff,
            final(self).master_filter_resonance == preset.master_filter_resonance,
            final(self).volume == preset.volume,
            final(self).sample_rate == old(self).sample_rate,
            final(self).active_notes == old(self).active_notes,
            final(self).custom_wavetables == old(self).custom_wavetables,
            final(self).analyzer.current_waveform_samples@ == old(
                self,
            ).analyzer.current_waveform_samples@,
            final(self).wf(),
    {
        self.oscillators = preset.oscillators.clone();
        self.oscillator_combination_mode = preset.oscillator_combination_mode;
        self.attack = preset.attack;
        self.decay = preset.decay;
        self.sustain = preset.sustain;
        self.release = preset.release;
        self.master_filter_type = preset.master_filter_type;
        self.master_filter_cutoff = preset.master_filter_cutoff;
        self.master_filter_resonance = preset.master_filter_resonance;
        self.volume = preset.volume;
    }
}

} // verus!

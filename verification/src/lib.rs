//! A polyphonic software synthesizer engine.
//!
//! The engine works in fixed-point arithmetic throughout: amplitudes and
//! levels are Q16 values (`AMP_ONE` is full scale), times are Q32 seconds
//! (`TIME_ONE` is one second), oscillator phase is a Q32 fraction of one
//! cycle (`PHASE_ONE` is a full cycle), and frequencies are Q16 Hz.

pub mod analyzer;
pub mod combination;
pub mod envelope;
pub mod filter;
pub mod fixed;
pub mod messaging;
pub mod midi;
pub mod modulation;
pub mod note;
pub mod oscillator;
pub mod preset;
pub mod samples;
pub mod synth;
pub mod tuning;
pub mod visualization;
pub mod waveform;

pub use fixed::AMP_ONE;

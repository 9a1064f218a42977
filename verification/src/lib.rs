//! Periodic waveform synthesis: phase-accurate sample generation for sine,
//! square, saw and triangle tones, amplitude quantization to signed 16-bit
//! PCM, and the three composition modes (plain, combo, modulate) that turn
//! one or two tones into an interleaved stereo sample stream.
//!
//! All quantities are exact integers: frequencies in milli-hertz, durations
//! in milliseconds, phases in milli-degrees, and amplitudes as fixed-point
//! fractions scaled by `shape::AMP_UNIT`.

pub mod compose;
pub mod shape;
pub mod signal;

//! Audio-input signal processing: sample normalization, RMS loudness
//! metering, stereo-to-mono downmixing, capture-device identifiers, a
//! two-slot capture session manager, and a WAV decoding pipeline.
//!
//! Amplitudes are carried as exact rationals: an integer numerator paired
//! with a positive denominator, so that `num / den` is the canonical sample
//! value in (roughly) `[-1.0, 1.0]`. All arithmetic on them is exact.

pub mod sample;
pub mod meter;
pub mod errors;
pub mod mixer;
pub mod device;
pub mod capture;
pub mod decoder;

//! Single-note pitch detection pipeline: signal conditioning and spectral
//! estimation over exact integer arithmetic.
//!
//! The core carries every sample as an exact integer numerator over a common
//! denominator (the full-scale value of the sample encoding), so the whole
//! conditioning chain — normalization, channel downmix, decimation, duration
//! capping — is verified exactly. Floating-point kernels (the Hann window
//! cosine, the Fourier transform, the logarithm of the note mapper) live in
//! the unverified shell around this crate, which hands plain integer values
//! back: magnitude keys for the peak search, a rounded note number for the
//! note mapper.

pub mod config;
pub mod error;
pub mod note;
pub mod signal;
pub mod spectrum;
pub mod stream;

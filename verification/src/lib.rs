//! Short-time Fourier transform of one-dimensional signals, with the
//! features derived from it: magnitude, phase and spectrogram.
//!
//! The library is generic in the scalar type of the samples and never looks
//! inside a scalar. It decides what is read, in which order, and where every
//! result is stored: how the signal is padded, where the window sits in a
//! frame, which samples make up a frame, and which part of a spectrum is
//! kept. Whatever is computed on scalars (the taper, the product of a
//! sample with a window coefficient, the Fourier transform of a frame, the
//! magnitude of a number) is handed in by the caller as functions, and the
//! contracts say which function was applied to which values.

pub mod config;
pub mod framing;
pub mod matrix;
pub mod metrics;
pub mod numeric;
pub mod padding;
pub mod preemphasis;
pub mod prelude;
pub mod spectrum;
pub mod stft;
pub mod window;

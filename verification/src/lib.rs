//! Spectral analysis of flight-controller telemetry, with its counting and
//! bookkeeping verified.
//!
//! A flight is a run of samples taken at a fixed rate. `iter` cuts such a run
//! into overlapping windows; `spectrum` pairs the windows of several series
//! and lays out the bins of a transformed window; `spectrogram` and `image`
//! assemble spectra into images along time and along throttle;
//! `step_response` plans the estimate of a control loop's step response;
//! `settings` and `colors` hold what a user can choose; `utils` gathers the
//! results of work that runs on another thread.
//!
//! The arithmetic on samples is floating point and is done by the program
//! around this library. What is here is what decides which samples and which
//! pixels, how many, and in what order.
pub mod colors;
pub mod image;
pub mod iter;
pub mod settings;
pub mod spectrogram;
pub mod spectrum;
pub mod step_response;
pub mod tabs;
pub mod utils;

//! Shared dimensions and firmware timing constants.
use vstd::prelude::*;

verus! {

/// Samples per axis in one analysis window (a power of two for the FFT).
pub const WINDOW_SIZE: usize = 128;

/// Number of low-frequency FFT magnitude bins kept per axis.
pub const FFT_BINS: usize = 4;

/// Length of the feature vector that the extractor produces.
pub const FEATURE_DIM: usize = 20;

/// Autoencoder input width.
pub const INPUT_DIM: usize = 20;

/// Width of the first encoder layer.
pub const HIDDEN1_DIM: usize = 10;

/// Width of the bottleneck layer.
pub const LATENT_DIM: usize = 4;

/// Width of the first decoder layer.
pub const HIDDEN2_DIM: usize = 10;

/// Autoencoder output width.
pub const OUTPUT_DIM: usize = 20;

/// Target accelerometer sample rate in Hz.
pub const SAMPLE_RATE_HZ: u32 = 200;

/// Target interval between samples in milliseconds.
pub const SAMPLE_INTERVAL_MS: u32 = 1000 / SAMPLE_RATE_HZ;

/// Number of consecutive I2C errors before a bus recovery attempt.
pub const MAX_I2C_ERRORS: u32 = 5;

} // verus!

//! Spectral analysis support for audio visualization.
//!
//! The crate holds the exact, integer part of a spectrum-display pipeline:
//! configuration of a fixed transform length, partitioning a magnitude
//! spectrum into display bins, clamp-and-rescale normalization, and the
//! interpolation helpers that blend successive frames.  Fractional
//! quantities (interpolation factors, smoothing coefficients, normalized
//! outputs) are integers counted in millionths of one; sample and decibel
//! values are integers in whatever fixed-point unit the caller picks.

use vstd::prelude::*;

pub mod binning;
pub mod config;
pub mod errors;
pub mod normalize;
pub mod smoothing;

pub use binning::binned_means;
pub use config::AnalysisConfig;
pub use errors::SpectrumError;
pub use normalize::normalize_for_visualization;
pub use smoothing::lerp_array;
pub use smoothing::smooth_frequency_data;

verus! {

/// One whole unit on the fraction scale: a factor, smoothing coefficient or
/// normalized value of `FRACTION_ONE` means exactly 1.
pub const FRACTION_ONE: u64 = 1_000_000;

/// Largest magnitude accepted for the values the analysis routines combine;
/// it keeps every intermediate sum and product within machine integers.
pub const VALUE_LIMIT: i64 = 1_000_000_000_000;

/// Largest interpolation factor `lerp_array` accepts: one thousand whole
/// units, so moderate extrapolation beyond the target stays in range.
pub const FACTOR_LIMIT: u64 = 1_000_000_000;

} // verus!

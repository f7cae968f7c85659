//! Errors the analysis routines report.

use vstd::prelude::*;

verus! {

/// Every failure is detected synchronously, before any observable state
/// changes: either a degenerate configuration value or a pair of sequences
/// whose lengths do not line up.
#[derive(Clone, Copy, Debug, PartialEq, Eq, Structural)]
pub enum SpectrumError {
    /// A configuration value leaves some step undefined: a transform length
    /// of zero or one, a bin count of zero, or a decibel window whose upper
    /// edge does not exceed its lower edge.
    InvalidConfig,
    /// Two sequences that must be combined element by element have
    /// different lengths.
    LengthMismatch,
}

} // verus!

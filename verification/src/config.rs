//! The fixed per-analyzer configuration: one transform length, chosen at
//! construction, which determines the window length, the working-buffer
//! length and the magnitude-spectrum length.

use vstd::prelude::*;

use crate::errors::SpectrumError;

verus! {

/// Configuration of one spectrum analyzer.  The transform length is fixed
/// for the lifetime of the value and is always at least two.
#[derive(Clone, Copy, Debug)]
pub struct AnalysisConfig {
    transform_size: usize,
}

impl AnalysisConfig {
    /// The transform length this configuration was built with.
    pub closed spec fn size(self) -> int {
        self.transform_size as int
    }

    /// A configuration is well formed when its transform length is at least
    /// two: the window formula divides by `size - 1` and the magnitude
    /// spectrum is `size / 2` long, so zero and one are degenerate.
    pub open spec fn well_formed(self) -> bool {
        self.size() >= 2
    }

    /// Builds a configuration, rejecting the degenerate lengths zero and
    /// one with `InvalidConfig`.
    pub fn new(transform_size: usize) -> (r: Result<AnalysisConfig, SpectrumError>)
        ensures
            r is Ok <==> transform_size >= 2,
            r matches Ok(c) ==> c.size() == transform_size && c.well_formed(),
            r matches Err(e) ==> e == SpectrumError::InvalidConfig,
    {
        if transform_size >= 2 {
            Ok(AnalysisConfig { transform_size })
        } else {
            Err(SpectrumError::InvalidConfig)
        }
    }

    /// The transform length, as an executable value.
    pub fn transform_size(&self) -> (r: usize)
        ensures
            r == self.size(),
    {
        self.transform_size
    }

    /// Length of every magnitude spectrum this configuration produces:
    /// half the transform length, by integer division.  A real-valued
    /// input yields a conjugate-symmetric spectrum, so the upper half of
    /// the transform output is redundant.
    pub fn magnitude_len(&self) -> (r: usize)
        ensures
            r == self.size() / 2,
            self.well_formed() ==> r >= 1,
    {
        self.transform_size / 2
    }

    /// How many leading input samples one analysis call consumes: shorter
    /// inputs are zero padded up to the transform length, longer inputs are
    /// silently truncated to it.
    pub fn effective_input_len(&self, sample_count: usize) -> (r: usize)
        ensures
            r == vstd::math::min(sample_count as int, self.size()),
            sample_count >= self.size() ==> r == self.size(),
            sample_count <= self.size() ==> r == sample_count,
    {
        if sample_count < self.transform_size {
            sample_count
        } else {
            self.transform_size
        }
    }
}

} // verus!

//! Errors reported by the library.
use vstd::prelude::*;

verus! {

/// Errors that can occur while preparing or tracing rays.
#[derive(Debug, PartialEq, Eq)]
pub enum XrtError {
    /// A per-ray column does not have the expected number of rays.
    BeamSizeMismatch { expected: usize, got: usize },
    /// A rotation sequence string is not of the form `RaRbRc` or `-RaRbRc`.
    InvalidRotationSequence(String),
    /// An integer is not one of the ray-state codes.
    InvalidRayState(i32),
    /// An index lies outside a column.
    IndexOutOfBounds { index: usize, length: usize },
    /// A chemical element or its tabulated data was not found.
    ElementNotFound(String),
    /// A data file could not be read or parsed.
    DataParse(String),
    /// A root finder gave up.
    RootFindConvergence { iterations: usize },
    /// A crystal geometry name was not understood.
    InvalidCrystalGeometry(String),
    /// An interpolation table was unusable.
    Interpolation(String),
}

} // verus!

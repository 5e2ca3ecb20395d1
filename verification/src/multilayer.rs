//! Multilayer geometry.
use vstd::prelude::*;

verus! {

/// Geometry of the multilayer calculation.
#[derive(Debug, Clone, Copy, PartialEq, Eq, Structural)]
pub enum MultilayerGeom {
    /// Reflected beam (normal use case)
    Reflected,
    /// Transmitted beam
    Transmitted,
}

} // verus!

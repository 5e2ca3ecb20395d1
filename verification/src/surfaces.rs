//! Optical surfaces.
use vstd::prelude::*;

verus! {

/// A perfectly flat mirror surface: height 0 everywhere, normal along +z.
#[derive(Debug, Clone, Copy, Default)]
pub struct FlatSurface;

} // verus!

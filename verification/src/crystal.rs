//! Crystal diffraction geometry and polarization.
use vstd::prelude::*;
use crate::error::XrtError;
use crate::text::{contains_str, has_prefix, has_substring, lowercase_of, starts_with_str, to_lowercase};

verus! {

/// Crystal diffraction geometry.
#[derive(Debug, Clone, Copy, PartialEq, Eq, Structural)]
pub enum CrystalGeometry {
    /// Bragg reflected (geometry=2)
    BraggReflected,
    /// Bragg transmitted (geometry=3)
    BraggTransmitted,
    /// Laue reflected (geometry=0)
    LaueReflected,
    /// Laue transmitted (geometry=1)
    LaueTransmitted,
}

/// The geometry that a lower-cased name denotes: Bragg when it starts with
/// `bragg` (Laue otherwise), transmitted when it contains `transmitted`
/// (reflected otherwise).
pub open spec fn geometry_named(lower: Seq<char>) -> CrystalGeometry {
    let bragg = has_prefix(lower, "bragg"@);
    let transmitted = has_substring(lower, "transmitted"@);
    if bragg {
        if transmitted {
            CrystalGeometry::BraggTransmitted
        } else {
            CrystalGeometry::BraggReflected
        }
    } else {
        if transmitted {
            CrystalGeometry::LaueTransmitted
        } else {
            CrystalGeometry::LaueReflected
        }
    }
}

/// The geometry is one of the two Bragg geometries.
pub open spec fn geometry_is_bragg(g: CrystalGeometry) -> bool {
    g is BraggReflected || g is BraggTransmitted
}

/// The geometry is one of the two transmitted geometries.
pub open spec fn geometry_is_transmitted(g: CrystalGeometry) -> bool {
    g is BraggTransmitted || g is LaueTransmitted
}

impl CrystalGeometry {
    /// The geometry that an already lower-cased name denotes.
    pub fn from_lowercase(lower: &str) -> (r: Self)
        ensures
            r == geometry_named(lower@),
    {
        let is_bragg = starts_with_str(lower, "bragg");
        let is_transmitted = contains_str(lower, "transmitted");
        match (is_bragg, is_transmitted) {
            (true, false) => CrystalGeometry::BraggReflected,
            (true, true) => CrystalGeometry::BraggTransmitted,
            (false, true) => CrystalGeometry::LaueTransmitted,
            (false, false) => CrystalGeometry::LaueReflected,
        }
    }

    /// Parse a geometry name (matching Python XRT conventions): the name is
    /// lower-cased, then read as [`CrystalGeometry::from_lowercase`]. Every
    /// name denotes some geometry, so this never fails.
    pub fn from_str_xrt(s: &str) -> (r: Result<Self, XrtError>)
        ensures
            r == Ok::<Self, XrtError>(geometry_named(lowercase_of(s@))),
    {
        let lower = to_lowercase(s);
        Ok(Self::from_lowercase(lower.as_str()))
    }

    /// Is this a Bragg (reflecting-planes) geometry?
    pub fn is_bragg(&self) -> (r: bool)
        ensures
            r == geometry_is_bragg(*self),
    {
        matches!(self, CrystalGeometry::BraggReflected | CrystalGeometry::BraggTransmitted)
    }

    /// Is this a transmitted-beam geometry?
    pub fn is_transmitted(&self) -> (r: bool)
        ensures
            r == geometry_is_transmitted(*self),
    {
        matches!(self, CrystalGeometry::BraggTransmitted | CrystalGeometry::LaueTransmitted)
    }
}

/// A parsed geometry is Bragg exactly when its name starts with `bragg`, and
/// transmitted exactly when its name contains `transmitted`.
pub proof fn lemma_geometry_flags(lower: Seq<char>)
    ensures
        geometry_is_bragg(geometry_named(lower)) == has_prefix(lower, "bragg"@),
        geometry_is_transmitted(geometry_named(lower)) == has_substring(lower, "transmitted"@),
{
}

/// Each geometry is told apart by its two flags.
pub proof fn lemma_geometry_determined_by_flags(g: CrystalGeometry, h: CrystalGeometry)
    ensures
        geometry_is_bragg(g) == geometry_is_bragg(h) && geometry_is_transmitted(g)
            == geometry_is_transmitted(h) ==> g == h,
{
}

/// Polarization type.
#[derive(Debug, Clone, Copy, PartialEq, Eq, Structural)]
pub enum Polarization {
    S,
    P,
}

} // verus!

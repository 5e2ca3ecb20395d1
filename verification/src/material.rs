//! Kinds of optical material.
use vstd::prelude::*;
use crate::text::{lowercase_of, str_equal, to_lowercase};

verus! {

/// Kind of optical material.
#[derive(Debug, Clone, Copy, PartialEq, Eq, Structural)]
pub enum MaterialKind {
    Mirror,
    ThinMirror,
    Plate,
    Lens,
    Grating,
    Fzp,
    Auto,
}

/// The kind that a lower-cased name denotes: one of the exact names
/// `mirror`, `thin mirror`, `plate`, `lens`, `grating`, `fzp`, and `Auto`
/// for anything else.
pub open spec fn kind_named(lower: Seq<char>) -> MaterialKind {
    if lower == "mirror"@ {
        MaterialKind::Mirror
    } else if lower == "thin mirror"@ {
        MaterialKind::ThinMirror
    } else if lower == "plate"@ {
        MaterialKind::Plate
    } else if lower == "lens"@ {
        MaterialKind::Lens
    } else if lower == "grating"@ {
        MaterialKind::Grating
    } else if lower == "fzp"@ {
        MaterialKind::Fzp
    } else {
        MaterialKind::Auto
    }
}

impl MaterialKind {
    /// The kind that an already lower-cased name denotes.
    pub fn from_lowercase(lower: &str) -> (r: Self)
        ensures
            r == kind_named(lower@),
    {
        if str_equal(lower, "mirror") {
            MaterialKind::Mirror
        } else if str_equal(lower, "thin mirror") {
            MaterialKind::ThinMirror
        } else if str_equal(lower, "plate") {
            MaterialKind::Plate
        } else if str_equal(lower, "lens") {
            MaterialKind::Lens
        } else if str_equal(lower, "grating") {
            MaterialKind::Grating
        } else if str_equal(lower, "fzp") {
            MaterialKind::Fzp
        } else {
            MaterialKind::Auto
        }
    }

    /// Parse a material kind (matching Python XRT conventions): the name is
    /// lower-cased, then read as [`MaterialKind::from_lowercase`].
    pub fn from_str_xrt(s: &str) -> (r: Self)
        ensures
            r == kind_named(lowercase_of(s@)),
    {
        let lower = to_lowercase(s);
        Self::from_lowercase(lower.as_str())
    }
}

} // verus!

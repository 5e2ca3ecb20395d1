//! Verified core of an X-ray optics ray tracer: ray bookkeeping, rotation
//! sequences, element and scattering-table lookups, and data-file scanning.
use vstd::prelude::*;

pub mod beam;
pub mod error;
pub mod transforms;
pub mod text;
pub mod data;
pub mod crystal;
pub mod material;
pub mod multilayer;
pub mod screen;
pub mod surfaces;
pub mod interp;

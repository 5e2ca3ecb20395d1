//! Screen (detector plane) binning.
use vstd::prelude::*;

verus! {

/// The slot of bin `(ix, iz)` in a row-major `nx` × `nz` histogram, or `None`
/// when the bin lies outside the grid (the ray misses the screen).
pub open spec fn slot_of(ix: int, iz: int, nx: int, nz: int) -> Option<int> {
    if 0 <= ix < nx && 0 <= iz < nz {
        Some(ix * nz + iz)
    } else {
        None
    }
}

/// Histogram slot of a ray that falls in bin `(ix, iz)` of an `nx` × `nz`
/// screen (row-major: `ix * nz + iz`), or `None` if it misses the screen.
pub fn bin_slot(ix: isize, iz: isize, nx: usize, nz: usize) -> (r: Option<usize>)
    requires
        nx * nz <= usize::MAX,
        nx <= isize::MAX,
        nz <= isize::MAX,
    ensures
        match r {
            Some(k) => slot_of(ix as int, iz as int, nx as int, nz as int) == Some(k as int),
            None => slot_of(ix as int, iz as int, nx as int, nz as int) is None,
        },
        r matches Some(k) ==> k < nx * nz,
{
    if ix >= 0 && ix < nx as isize && iz >= 0 && iz < nz as isize {
        let i = ix as usize;
        let k = iz as usize;
        assert(i * nz + k < nx * nz) by (nonlinear_arith)
            requires
                i < nx,
                k < nz,
        ;
        assert(i * nz <= nx * nz) by (nonlinear_arith)
            requires
                i < nx,
        ;
        Some(i * nz + k)
    } else {
        None
    }
}

/// Each bin of the grid has its own slot, and the slots fill `0 .. nx * nz`.
pub proof fn lemma_slots_distinct(ix: int, iz: int, jx: int, jz: int, nx: int, nz: int)
    requires
        slot_of(ix, iz, nx, nz) is Some,
        slot_of(jx, jz, nx, nz) is Some,
    ensures
        0 <= slot_of(ix, iz, nx, nz)->0 < nx * nz,
        slot_of(ix, iz, nx, nz) == slot_of(jx, jz, nx, nz) ==> ix == jx && iz == jz,
{
    assert(0 <= ix * nz + iz < nx * nz) by (nonlinear_arith)
        requires
            0 <= ix < nx,
            0 <= iz < nz,
    ;
    if ix * nz + iz == jx * nz + jz {
        assert(ix == jx && iz == jz) by (nonlinear_arith)
            requires
                0 <= ix < nx,
                0 <= iz < nz,
                0 <= jx < nx,
                0 <= jz < nz,
                ix * nz + iz == jx * nz + jz,
        ;
    }
}

} // verus!

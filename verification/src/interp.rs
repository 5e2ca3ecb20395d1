//! Locating a point among sorted interpolation knots.
use vstd::prelude::*;

verus! {

/// Bisection over the knots `0 .. n` of a sorted table: `at_or_below(i)`
/// answers whether knot `i` lies at or below the point being located. Starting
/// from the whole table `[0, n - 1]`, the bracket is halved until it is one
/// segment wide; the result is the segment's left knot `lo`. Every knot that
/// moved the left end answered yes, every knot that moved the right end
/// answered no.
pub fn bracket_search<P: Fn(usize) -> bool>(n: usize, at_or_below: P) -> (lo: usize)
    requires
        n >= 2,
        forall|i: usize| i < n ==> call_requires(at_or_below, (i,)),
    ensures
        lo + 1 < n,
        lo == 0 || call_ensures(at_or_below, (lo,), true),
        lo + 2 == n || call_ensures(at_or_below, ((lo + 1) as usize,), false),
{
    let mut lo: usize = 0;
    let mut hi: usize = n - 1;
    while lo < hi - 1
        invariant
            lo < hi <= n - 1,
            forall|i: usize| i < n ==> call_requires(at_or_below, (i,)),
            lo == 0 || call_ensures(at_or_below, (lo,), true),
            hi == n - 1 || call_ensures(at_or_below, (hi,), false),
        decreases hi - lo,
    {
        let mid = lo + (hi - lo) / 2;
        if at_or_below(mid) {
            lo = mid;
        } else {
            hi = mid;
        }
    }
    lo
}

/// For a monotone yes/no answer over the knots (yes up to some knot, no after
/// it) that says yes at the first knot and no at the last, there is exactly
/// one segment whose left knot says yes and whose right knot says no.
pub proof fn lemma_bracket_unique(p: spec_fn(int) -> bool, n: int, a: int, b: int)
    requires
        forall|i: int, j: int| 0 <= i <= j < n && #[trigger] p(j) ==> #[trigger] p(i),
        0 <= a && a + 1 < n && p(a) && !p(a + 1),
        0 <= b && b + 1 < n && p(b) && !p(b + 1),
    ensures
        a == b,
{
    if a < b {
        assert(p(b) ==> p(a + 1));
    } else if b < a {
        assert(p(a) ==> p(b + 1));
    }
}

} // verus!

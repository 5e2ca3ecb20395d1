//! Beam container: one column per ray quantity (structure of arrays).
//!
//! The columns are generic over the scalar type `F` of positions, directions,
//! energies and intensities, and over the type `C` of complex field values, so
//! that the bookkeeping here (which rays are kept, how beams are joined, which
//! optional columns survive) is checked independently of the arithmetic done
//! on the values themselves.
use vstd::prelude::*;

verus! {

/// Ray state flags (the conventions of the original XRT beam class).
#[derive(Debug, Clone, Copy, PartialEq, Eq, Structural)]
pub enum RayState {
    /// Not yet traced (code 0)
    Undefined,
    /// Good (alive) ray (code 1)
    Good,
    /// Ray missed the optical element, out of acceptance (code 2)
    Out,
    /// Ray absorbed or over the aperture (code 3)
    Over,
    /// Ray is dead: energy below threshold, etc. (code -1)
    Dead,
}

/// The integer code under which a state is stored in the state column.
pub open spec fn state_code(s: RayState) -> int {
    match s {
        RayState::Undefined => 0,
        RayState::Good => 1,
        RayState::Out => 2,
        RayState::Over => 3,
        RayState::Dead => -1,
    }
}

/// The state that a stored code stands for; unknown codes read as `Undefined`.
pub open spec fn state_of_code(v: int) -> RayState {
    if v == 1 {
        RayState::Good
    } else if v == 2 {
        RayState::Out
    } else if v == 3 {
        RayState::Over
    } else if v == -1 {
        RayState::Dead
    } else {
        RayState::Undefined
    }
}

/// The code of a good ray.
pub const GOOD: i32 = 1;

impl RayState {
    /// The state stored under code `v`; codes that name no state give `Undefined`.
    pub fn from_i32(v: i32) -> (r: Self)
        ensures
            r == state_of_code(v as int),
    {
        match v {
            0 => Self::Undefined,
            1 => Self::Good,
            2 => Self::Out,
            3 => Self::Over,
            -1 => Self::Dead,
            _ => Self::Undefined,
        }
    }

    /// The integer code of this state, as stored in the state column.
    pub fn code(self) -> (r: i32)
        ensures
            r == state_code(self),
    {
        match self {
            RayState::Undefined => 0,
            RayState::Good => 1,
            RayState::Out => 2,
            RayState::Over => 3,
            RayState::Dead => -1,
        }
    }
}

/// Reading back the code of a state gives the state.
pub proof fn lemma_state_code_roundtrip(s: RayState)
    ensures
        state_of_code(state_code(s)) == s,
{
}

/// The state codes are the XRT values: untraced 0, good 1, out 2, over 3,
/// dead -1; each code reads back as its state, and every other code as
/// untraced.
pub proof fn lemma_state_codes()
    ensures
        state_code(RayState::Undefined) == 0,
        state_code(RayState::Good) == 1,
        state_code(RayState::Out) == 2,
        state_code(RayState::Over) == 3,
        state_code(RayState::Dead) == -1,
        state_of_code(0) == RayState::Undefined,
        state_of_code(1) == RayState::Good,
        state_of_code(2) == RayState::Out,
        state_of_code(3) == RayState::Over,
        state_of_code(-1) == RayState::Dead,
        forall|v: int| !(v == -1 || (0 <= v && v <= 3)) ==> state_of_code(v) == RayState::Undefined,
        GOOD == 1,
{
}

/// A code survives the trip through `RayState` exactly when it names a state.
pub proof fn lemma_known_codes(v: i32)
    ensures
        state_code(state_of_code(v as int)) == v <==> (v == -1 || (0 <= v && v <= 3)),
{
}

// ── Columns ─────────────────────────────────────────────────────────────────

/// `n` copies of `v`.
pub open spec fn filled<T>(n: nat, v: T) -> Seq<T> {
    Seq::new(n, |i: int| v)
}

/// The entries of `col` at positions `idx`, in the order of `idx`.
pub open spec fn picked<T>(col: Seq<T>, idx: Seq<usize>) -> Seq<T> {
    idx.map_values(|i: usize| col[i as int])
}

/// Every position in `idx` is below `n`.
pub open spec fn all_below(idx: Seq<usize>, n: nat) -> bool {
    forall|k: int| 0 <= k < idx.len() ==> #[trigger] idx[k] < n
}

/// The positions of the good rays of a state column, in increasing order.
pub open spec fn good_positions(s: Seq<i32>) -> Seq<usize>
    decreases s.len(),
{
    if s.len() == 0 {
        Seq::empty()
    } else {
        let rest = good_positions(s.drop_last());
        if s.last() == GOOD {
            rest.push((s.len() - 1) as usize)
        } else {
            rest
        }
    }
}

/// The positions of the good rays are exactly the good positions, each once, in order.
pub proof fn lemma_good_positions(s: Seq<i32>)
    requires
        s.len() <= usize::MAX + 1,
    ensures
        good_positions(s).len() <= s.len(),
        all_below(good_positions(s), s.len()),
        forall|k: int| 0 <= k < good_positions(s).len() ==> s[#[trigger] good_positions(s)[k] as int]
            == GOOD,
        forall|k: int, l: int|
            0 <= k < l < good_positions(s).len() ==> #[trigger] good_positions(s)[k]
                < #[trigger] good_positions(s)[l],
        forall|i: int| 0 <= i < s.len() && s[i] == GOOD ==> #[trigger] good_positions(s).contains(
            i as usize,
        ),
    decreases s.len(),
{
    if s.len() > 0 {
        let t = s.drop_last();
        lemma_good_positions(t);
        let rest = good_positions(t);
        assert forall|i: int| 0 <= i < s.len() && s[i] == GOOD implies #[trigger] good_positions(
            s,
        ).contains(i as usize) by {
            if i < t.len() {
                assert(t[i] == s[i]);
                assert(rest.contains(i as usize));
                let k = choose|k: int| 0 <= k < rest.len() && rest[k] == i as usize;
                assert(good_positions(s)[k] == i as usize);
            } else {
                assert(good_positions(s).last() == i as usize);
            }
        }
        assert forall|k: int| 0 <= k < good_positions(s).len() implies s[#[trigger] good_positions(
            s,
        )[k] as int] == GOOD by {
            if k < rest.len() {
                assert(good_positions(s)[k] == rest[k]);
                assert(t[rest[k] as int] == GOOD);
            }
        }
    }
}

/// Counting the good rays of a longer column: the last entry adds one if good.
proof fn lemma_good_positions_step(s: Seq<i32>, i: int)
    requires
        0 <= i < s.len(),
    ensures
        good_positions(s.subrange(0, i + 1)) == if s[i] == GOOD {
            good_positions(s.subrange(0, i)).push(i as usize)
        } else {
            good_positions(s.subrange(0, i))
        },
{
    assert(s.subrange(0, i + 1).drop_last() =~= s.subrange(0, i));
}

/// A column of `n` copies of `v`.
fn fill_column<T: Copy>(n: usize, v: T) -> (r: Vec<T>)
    ensures
        r@ == filled(n as nat, v),
{
    let mut col: Vec<T> = Vec::new();
    let mut i: usize = 0;
    while i < n
        invariant
            i <= n,
            col@ == filled(i as nat, v),
        decreases n - i,
    {
        col.push(v);
        i = i + 1;
        assert(col@ =~= filled(i as nat, v));
    }
    col
}

/// Rays `indices` of `col`, in the given order.
fn pick_column<T: Copy>(col: &Vec<T>, indices: &[usize]) -> (r: Vec<T>)
    requires
        all_below(indices@, col@.len()),
    ensures
        r@ == picked(col@, indices@),
{
    let mut out: Vec<T> = Vec::new();
    let mut k: usize = 0;
    while k < indices.len()
        invariant
            k <= indices@.len(),
            all_below(indices@, col@.len()),
            out@ == picked(col@, indices@.subrange(0, k as int)),
        decreases indices@.len() - k,
    {
        let i = indices[k];
        assert(indices@[k as int] < col@.len());
        out.push(col[i]);
        k = k + 1;
        assert(out@ =~= picked(col@, indices@.subrange(0, k as int)));
    }
    assert(indices@.subrange(0, indices@.len() as int) =~= indices@);
    out
}

/// `a` followed by `b`.
fn concat_column<T: Copy>(a: &Vec<T>, b: &Vec<T>) -> (r: Vec<T>)
    requires
        a@.len() + b@.len() <= usize::MAX,
    ensures
        r@ == a@ + b@,
{
    let mut out: Vec<T> = Vec::new();
    let mut i: usize = 0;
    while i < a.len()
        invariant
            i <= a@.len(),
            out@ == a@.subrange(0, i as int),
        decreases a@.len() - i,
    {
        out.push(a[i]);
        i = i + 1;
        assert(out@ =~= a@.subrange(0, i as int));
    }
    let mut j: usize = 0;
    while j < b.len()
        invariant
            j <= b@.len(),
            out@ == a@ + b@.subrange(0, j as int),
        decreases b@.len() - j,
    {
        out.push(b[j]);
        j = j + 1;
        assert(out@ =~= a@ + b@.subrange(0, j as int));
    }
    assert(b@.subrange(0, b@.len() as int) =~= b@);
    out
}

/// `joined` is `a` followed by `b` when both are present, and absent otherwise.
pub open spec fn joins_optional<T>(joined: Option<Vec<T>>, a: Option<Vec<T>>, b: Option<Vec<T>>) -> bool {
    match (a, b) {
        (Some(a), Some(b)) => joined matches Some(j) && j@ == a@ + b@,
        _ => joined is None,
    }
}

/// Concatenate two optional columns, keeping the column only if both carry it.
fn concat_optional<T: Copy>(a: &Option<Vec<T>>, b: &Option<Vec<T>>) -> (r: Option<Vec<T>>)
    requires
        match (*a, *b) {
            (Some(a), Some(b)) => a@.len() + b@.len() <= usize::MAX,
            _ => true,
        },
    ensures
        joins_optional(r, *a, *b),
{
    match (a, b) {
        (Some(a), Some(b)) => Some(concat_column(a, b)),
        _ => None,
    }
}

/// `out` is `src` at positions `idx` when `src` is present, and absent otherwise.
pub open spec fn picks_optional<T>(out: Option<Vec<T>>, src: Option<Vec<T>>, idx: Seq<usize>) -> bool {
    match src {
        Some(s) => out matches Some(o) && o@ == picked(s@, idx),
        None => out is None,
    }
}

/// A present optional column has `n` entries.
pub open spec fn optional_fits<T>(col: Option<Vec<T>>, n: nat) -> bool {
    col matches Some(c) ==> c@.len() == n
}

/// A present optional column has an entry at each of the positions `idx`.
pub open spec fn optional_covers<T>(col: Option<Vec<T>>, idx: Seq<usize>) -> bool {
    col matches Some(c) ==> all_below(idx, c@.len())
}

fn pick_optional<T: Copy>(col: &Option<Vec<T>>, indices: &[usize]) -> (r: Option<Vec<T>>)
    requires
        optional_covers(*col, indices@),
    ensures
        picks_optional(r, *col, indices@),
{
    match col {
        Some(c) => Some(pick_column(c, indices)),
        None => None,
    }
}

// ── Grouped optional fields ─────────────────────────────────────────────────

/// Field amplitudes of every ray, allocated together.
///
/// `es` and `ep` are created in one step and dropped in one step, so one
/// without the other cannot occur.
#[derive(Debug, Clone)]
pub struct Amplitudes<C> {
    pub es: Vec<C>,
    pub ep: Vec<C>,
}

/// Elevation of every ray above the optical surface, allocated together.
#[derive(Debug, Clone)]
pub struct Elevation<F> {
    pub d: Vec<F>,
    pub x: Vec<F>,
    pub y: Vec<F>,
    pub z: Vec<F>,
}

/// Parametric surface coordinates of every ray, allocated together.
#[derive(Debug, Clone)]
pub struct Parametric<F> {
    pub s: Vec<F>,
    pub phi: Vec<F>,
    pub r: Vec<F>,
}

impl<C> Amplitudes<C> {
    /// Both columns have `n` entries.
    pub open spec fn has_len(&self, n: nat) -> bool {
        self.es@.len() == n && self.ep@.len() == n
    }

    /// Both columns have an entry at each of the positions `idx`.
    pub open spec fn covers(&self, idx: Seq<usize>) -> bool {
        all_below(idx, self.es@.len()) && all_below(idx, self.ep@.len())
    }

    /// These are the amplitudes of `src` at positions `idx`.
    pub open spec fn is_pick_of(&self, src: Self, idx: Seq<usize>) -> bool {
        self.es@ == picked(src.es@, idx) && self.ep@ == picked(src.ep@, idx)
    }

    /// These are the amplitudes of `a` followed by those of `b`.
    pub open spec fn is_join_of(&self, a: Self, b: Self) -> bool {
        self.es@ == a.es@ + b.es@ && self.ep@ == a.ep@ + b.ep@
    }
}

impl<C: Copy> Amplitudes<C> {
    fn zeros(nrays: usize, zero: C) -> (r: Self)
        ensures
            r.es@ == filled(nrays as nat, zero),
            r.ep@ == filled(nrays as nat, zero),
    {
        Self { es: fill_column(nrays, zero), ep: fill_column(nrays, zero) }
    }

    fn pick(&self, indices: &[usize]) -> (r: Self)
        requires
            self.covers(indices@),
        ensures
            r.is_pick_of(*self, indices@),
    {
        Self { es: pick_column(&self.es, indices), ep: pick_column(&self.ep, indices) }
    }

    fn concat(a: &Option<Self>, b: &Option<Self>) -> (r: Option<Self>)
        requires
            match (*a, *b) {
                (Some(a), Some(b)) => a.es@.len() + b.es@.len() <= usize::MAX && a.ep@.len()
                    + b.ep@.len() <= usize::MAX,
                _ => true,
            },
        ensures
            match (*a, *b) {
                (Some(a), Some(b)) => r matches Some(j) && j.is_join_of(a, b),
                _ => r is None,
            },
    {
        match (a, b) {
            (Some(a), Some(b)) => Some(
                Self { es: concat_column(&a.es, &b.es), ep: concat_column(&a.ep, &b.ep) },
            ),
            _ => None,
        }
    }
}

impl<F> Elevation<F> {
    /// All four columns have `n` entries.
    pub open spec fn has_len(&self, n: nat) -> bool {
        self.d@.len() == n && self.x@.len() == n && self.y@.len() == n && self.z@.len() == n
    }

    /// All four columns have an entry at each of the positions `idx`.
    pub open spec fn covers(&self, idx: Seq<usize>) -> bool {
        all_below(idx, self.d@.len()) && all_below(idx, self.x@.len()) && all_below(
            idx,
            self.y@.len(),
        ) && all_below(idx, self.z@.len())
    }

    /// This is the elevation of `src` at positions `idx`.
    pub open spec fn is_pick_of(&self, src: Self, idx: Seq<usize>) -> bool {
        &&& self.d@ == picked(src.d@, idx)
        &&& self.x@ == picked(src.x@, idx)
        &&& self.y@ == picked(src.y@, idx)
        &&& self.z@ == picked(src.z@, idx)
    }

    /// This is the elevation of `a` followed by that of `b`.
    pub open spec fn is_join_of(&self, a: Self, b: Self) -> bool {
        &&& self.d@ == a.d@ + b.d@
        &&& self.x@ == a.x@ + b.x@
        &&& self.y@ == a.y@ + b.y@
        &&& self.z@ == a.z@ + b.z@
    }
}

impl<F: Copy> Elevation<F> {
    fn zeros(nrays: usize, zero: F) -> (r: Self)
        ensures
            r.d@ == filled(nrays as nat, zero),
            r.x@ == filled(nrays as nat, zero),
            r.y@ == filled(nrays as nat, zero),
            r.z@ == filled(nrays as nat, zero),
    {
        Self {
            d: fill_column(nrays, zero),
            x: fill_column(nrays, zero),
            y: fill_column(nrays, zero),
            z: fill_column(nrays, zero),
        }
    }

    fn pick(&self, indices: &[usize]) -> (r: Self)
        requires
            self.covers(indices@),
        ensures
            r.is_pick_of(*self, indices@),
    {
        Self {
            d: pick_column(&self.d, indices),
            x: pick_column(&self.x, indices),
            y: pick_column(&self.y, indices),
            z: pick_column(&self.z, indices),
        }
    }

    fn concat(a: &Option<Self>, b: &Option<Self>) -> (r: Option<Self>)
        requires
            match (*a, *b) {
                (Some(a), Some(b)) => {
                    &&& a.d@.len() + b.d@.len() <= usize::MAX
                    &&& a.x@.len() + b.x@.len() <= usize::MAX
                    &&& a.y@.len() + b.y@.len() <= usize::MAX
                    &&& a.z@.len() + b.z@.len() <= usize::MAX
                },
                _ => true,
            },
        ensures
            match (*a, *b) {
                (Some(a), Some(b)) => r matches Some(j) && j.is_join_of(a, b),
                _ => r is None,
            },
    {
        match (a, b) {
            (Some(a), Some(b)) => Some(
                Self {
                    d: concat_column(&a.d, &b.d),
                    x: concat_column(&a.x, &b.x),
                    y: concat_column(&a.y, &b.y),
                    z: concat_column(&a.z, &b.z),
                },
            ),
            _ => None,
        }
    }
}

impl<F> Parametric<F> {
    /// All three columns have `n` entries.
    pub open spec fn has_len(&self, n: nat) -> bool {
        self.s@.len() == n && self.phi@.len() == n && self.r@.len() == n
    }

    /// All three columns have an entry at each of the positions `idx`.
    pub open spec fn covers(&self, idx: Seq<usize>) -> bool {
        all_below(idx, self.s@.len()) && all_below(idx, self.phi@.len()) && all_below(
            idx,
            self.r@.len(),
        )
    }

    /// These are the coordinates of `src` at positions `idx`.
    pub open spec fn is_pick_of(&self, src: Self, idx: Seq<usize>) -> bool {
        &&& self.s@ == picked(src.s@, idx)
        &&& self.phi@ == picked(src.phi@, idx)
        &&& self.r@ == picked(src.r@, idx)
    }

    /// These are the coordinates of `a` followed by those of `b`.
    pub open spec fn is_join_of(&self, a: Self, b: Self) -> bool {
        &&& self.s@ == a.s@ + b.s@
        &&& self.phi@ == a.phi@ + b.phi@
        &&& self.r@ == a.r@ + b.r@
    }
}

impl<F: Copy> Parametric<F> {
    fn zeros(nrays: usize, zero: F) -> (r: Self)
        ensures
            r.s@ == filled(nrays as nat, zero),
            r.phi@ == filled(nrays as nat, zero),
            r.r@ == filled(nrays as nat, zero),
    {
        Self {
            s: fill_column(nrays, zero),
            phi: fill_column(nrays, zero),
            r: fill_column(nrays, zero),
        }
    }

    fn pick(&self, indices: &[usize]) -> (r: Self)
        requires
            self.covers(indices@),
        ensures
            r.is_pick_of(*self, indices@),
    {
        Self {
            s: pick_column(&self.s, indices),
            phi: pick_column(&self.phi, indices),
            r: pick_column(&self.r, indices),
        }
    }

    fn concat(a: &Option<Self>, b: &Option<Self>) -> (r: Option<Self>)
        requires
            match (*a, *b) {
                (Some(a), Some(b)) => {
                    &&& a.s@.len() + b.s@.len() <= usize::MAX
                    &&& a.phi@.len() + b.phi@.len() <= usize::MAX
                    &&& a.r@.len() + b.r@.len() <= usize::MAX
                },
                _ => true,
            },
        ensures
            match (*a, *b) {
                (Some(a), Some(b)) => r matches Some(j) && j.is_join_of(a, b),
                _ => r is None,
            },
    {
        match (a, b) {
            (Some(a), Some(b)) => Some(
                Self {
                    s: concat_column(&a.s, &b.s),
                    phi: concat_column(&a.phi, &b.phi),
                    r: concat_column(&a.r, &b.r),
                },
            ),
            _ => None,
        }
    }
}

// ── The beam ────────────────────────────────────────────────────────────────

/// Structure-of-arrays container for a bundle of rays.
///
/// Each per-ray quantity is a column; ray `i` is entry `i` of every column.
/// The number of rays is the length of `x`.
///
/// The optional columns (`amplitudes`, `theta`, `order`, `n_refl`, `elevation`,
/// `parametric`) are allocated by the `ensure_*` methods at the current number
/// of rays, kept by selection, and kept by concatenation only when both beams
/// carry them; so a present optional column always has one entry per ray
/// (`optionals_fit`).
#[derive(Debug, Clone)]
pub struct Beam<F, C> {
    // ── Position ────────────────────────────────────────────────────────
    pub x: Vec<F>,
    pub y: Vec<F>,
    pub z: Vec<F>,
    // ── Direction cosines (normalized) ─────────────────────────────────
    pub a: Vec<F>,
    pub b: Vec<F>,
    pub c: Vec<F>,
    // ── State & scalar per-ray fields ──────────────────────────────────
    pub state: Vec<i32>,
    pub e: Vec<F>,
    pub path: Vec<F>,
    // ── Coherency matrix ───────────────────────────────────────────────
    pub jss: Vec<F>,
    pub jpp: Vec<F>,
    pub jsp: Vec<C>,
    // ── Optional field amplitudes ──────────────────────────────────────
    pub amplitudes: Option<Amplitudes<C>>,
    // ── Source parameters (scalars) ────────────────────────────────────
    pub source_sigma_x: F,
    pub source_sigma_z: F,
    pub filament_dx: F,
    pub filament_dz: F,
    pub filament_dtheta: F,
    pub filament_dpsi: F,
    pub filament_dgamma: F,
    // ── Optional per-ray fields ────────────────────────────────────────
    pub theta: Option<Vec<F>>,
    pub order: Option<Vec<i32>>,
    pub n_refl: Option<Vec<i32>>,
    // ── Elevation tracking ─────────────────────────────────────────────
    pub elevation: Option<Elevation<F>>,
    // ── Parametric surface coordinates ─────────────────────────────────
    pub parametric: Option<Parametric<F>>,
}

impl<F, C> Beam<F, C> {
    /// Number of rays: the length of the `x` column.
    pub open spec fn ray_count(&self) -> nat {
        self.x@.len()
    }

    /// Every optional column that is present has one entry per ray.
    pub open spec fn optionals_fit(&self) -> bool {
        let n = self.x@.len();
        &&& (self.amplitudes matches Some(am) ==> am.has_len(n))
        &&& (self.elevation matches Some(el) ==> el.has_len(n))
        &&& (self.parametric matches Some(pa) ==> pa.has_len(n))
        &&& optional_fits(self.theta, n)
        &&& optional_fits(self.order, n)
        &&& optional_fits(self.n_refl, n)
    }

    /// Every column that is present has an entry at each of the positions `idx`.
    pub open spec fn covers(&self, idx: Seq<usize>) -> bool {
        &&& all_below(idx, self.x@.len())
        &&& all_below(idx, self.y@.len())
        &&& all_below(idx, self.z@.len())
        &&& all_below(idx, self.a@.len())
        &&& all_below(idx, self.b@.len())
        &&& all_below(idx, self.c@.len())
        &&& all_below(idx, self.state@.len())
        &&& all_below(idx, self.e@.len())
        &&& all_below(idx, self.path@.len())
        &&& all_below(idx, self.jss@.len())
        &&& all_below(idx, self.jpp@.len())
        &&& all_below(idx, self.jsp@.len())
        &&& (self.amplitudes matches Some(am) ==> am.covers(idx))
        &&& (self.elevation matches Some(el) ==> el.covers(idx))
        &&& (self.parametric matches Some(pa) ==> pa.covers(idx))
        &&& optional_covers(self.theta, idx)
        &&& optional_covers(self.order, idx)
        &&& optional_covers(self.n_refl, idx)
    }

    /// The source parameters of the two beams agree.
    pub open spec fn same_source(&self, other: &Self) -> bool {
        &&& self.source_sigma_x == other.source_sigma_x
        &&& self.source_sigma_z == other.source_sigma_z
        &&& self.filament_dx == other.filament_dx
        &&& self.filament_dz == other.filament_dz
        &&& self.filament_dtheta == other.filament_dtheta
        &&& self.filament_dpsi == other.filament_dpsi
        &&& self.filament_dgamma == other.filament_dgamma
    }

    /// This beam consists of the rays of `src` at positions `idx`, in that
    /// order: every column of `src` is picked at `idx`, an optional column is
    /// present here exactly when it is present in `src`, and the source
    /// parameters are those of `src`.
    pub open spec fn is_selection_of(&self, src: &Self, idx: Seq<usize>) -> bool {
        &&& self.x@ == picked(src.x@, idx)
        &&& self.y@ == picked(src.y@, idx)
        &&& self.z@ == picked(src.z@, idx)
        &&& self.a@ == picked(src.a@, idx)
        &&& self.b@ == picked(src.b@, idx)
        &&& self.c@ == picked(src.c@, idx)
        &&& self.state@ == picked(src.state@, idx)
        &&& self.e@ == picked(src.e@, idx)
        &&& self.path@ == picked(src.path@, idx)
        &&& self.jss@ == picked(src.jss@, idx)
        &&& self.jpp@ == picked(src.jpp@, idx)
        &&& self.jsp@ == picked(src.jsp@, idx)
        &&& self.same_source(src)
        &&& match src.amplitudes {
            Some(am) => self.amplitudes matches Some(o) && o.is_pick_of(am, idx),
            None => self.amplitudes is None,
        }
        &&& match src.elevation {
            Some(el) => self.elevation matches Some(o) && o.is_pick_of(el, idx),
            None => self.elevation is None,
        }
        &&& match src.parametric {
            Some(pa) => self.parametric matches Some(o) && o.is_pick_of(pa, idx),
            None => self.parametric is None,
        }
        &&& picks_optional(self.theta, src.theta, idx)
        &&& picks_optional(self.order, src.order, idx)
        &&& picks_optional(self.n_refl, src.n_refl, idx)
    }

    /// This beam consists of the rays of `first` followed by those of
    /// `second`: every column is the concatenation, an optional column is
    /// present exactly when both carry it, and the source parameters are those
    /// of `first`.
    pub open spec fn is_join_of(&self, first: &Self, second: &Self) -> bool {
        &&& self.x@ == first.x@ + second.x@
        &&& self.y@ == first.y@ + second.y@
        &&& self.z@ == first.z@ + second.z@
        &&& self.a@ == first.a@ + second.a@
        &&& self.b@ == first.b@ + second.b@
        &&& self.c@ == first.c@ + second.c@
        &&& self.state@ == first.state@ + second.state@
        &&& self.e@ == first.e@ + second.e@
        &&& self.path@ == first.path@ + second.path@
        &&& self.jss@ == first.jss@ + second.jss@
        &&& self.jpp@ == first.jpp@ + second.jpp@
        &&& self.jsp@ == first.jsp@ + second.jsp@
        &&& self.same_source(first)
        &&& match (first.amplitudes, second.amplitudes) {
            (Some(p), Some(q)) => self.amplitudes matches Some(o) && o.is_join_of(p, q),
            _ => self.amplitudes is None,
        }
        &&& match (first.elevation, second.elevation) {
            (Some(p), Some(q)) => self.elevation matches Some(o) && o.is_join_of(p, q),
            _ => self.elevation is None,
        }
        &&& match (first.parametric, second.parametric) {
            (Some(p), Some(q)) => self.parametric matches Some(o) && o.is_join_of(p, q),
            _ => self.parametric is None,
        }
        &&& joins_optional(self.theta, first.theta, second.theta)
        &&& joins_optional(self.order, first.order, second.order)
        &&& joins_optional(self.n_refl, first.n_refl, second.n_refl)
    }

    /// Every column of the beam has at most `n` entries.
    pub open spec fn all_columns_within(&self, n: nat) -> bool {
        &&& self.x@.len() <= n
        &&& self.y@.len() <= n
        &&& self.z@.len() <= n
        &&& self.a@.len() <= n
        &&& self.b@.len() <= n
        &&& self.c@.len() <= n
        &&& self.state@.len() <= n
        &&& self.e@.len() <= n
        &&& self.path@.len() <= n
        &&& self.jss@.len() <= n
        &&& self.jpp@.len() <= n
        &&& self.jsp@.len() <= n
        &&& (self.amplitudes matches Some(am) ==> am.es@.len() <= n && am.ep@.len() <= n)
        &&& (self.elevation matches Some(el) ==> el.d@.len() <= n && el.x@.len() <= n
            && el.y@.len() <= n && el.z@.len() <= n)
        &&& (self.parametric matches Some(pa) ==> pa.s@.len() <= n && pa.phi@.len() <= n
            && pa.r@.len() <= n)
        &&& (self.theta matches Some(t) ==> t@.len() <= n)
        &&& (self.order matches Some(o) ==> o@.len() <= n)
        &&& (self.n_refl matches Some(r) ==> r@.len() <= n)
    }

}

/// Selecting rays from a beam gives a beam whose optional columns fit.
pub proof fn lemma_selection_fits<F, C>(src: Beam<F, C>, out: Beam<F, C>, idx: Seq<usize>)
    requires
        out.is_selection_of(&src, idx),
    ensures
        out.optionals_fit(),
        out.ray_count() == idx.len(),
{
}

/// Joining two beams whose optional columns fit gives a beam whose optional
/// columns fit, with as many rays as the two together.
pub proof fn lemma_join_fits<F, C>(first: Beam<F, C>, second: Beam<F, C>, joined: Beam<F, C>)
    requires
        first.optionals_fit(),
        second.optionals_fit(),
        joined.is_join_of(&first, &second),
    ensures
        joined.optionals_fit(),
        joined.ray_count() == first.ray_count() + second.ray_count(),
{
}

/// The good rays of a beam are all good, and there is one per good entry of
/// the state column.
pub proof fn lemma_good_selection<F, C>(src: Beam<F, C>, out: Beam<F, C>)
    requires
        src.state@.len() <= usize::MAX,
        out.is_selection_of(&src, good_positions(src.state@)),
    ensures
        forall|k: int| 0 <= k < out.state@.len() ==> #[trigger] out.state@[k] == GOOD,
        out.state@.len() == good_positions(src.state@).len(),
{
    lemma_good_positions(src.state@);
    let g = good_positions(src.state@);
    assert forall|k: int| 0 <= k < out.state@.len() implies #[trigger] out.state@[k] == GOOD by {
        assert(out.state@[k] == src.state@[g[k] as int]);
    }
}

/// Positions of the good rays of a state column, in increasing order.
pub fn good_positions_of(state: &Vec<i32>) -> (r: Vec<usize>)
    ensures
        r@ == good_positions(state@),
{
    let mut out: Vec<usize> = Vec::new();
    let mut i: usize = 0;
    while i < state.len()
        invariant
            i <= state@.len(),
            out@ == good_positions(state@.subrange(0, i as int)),
        decreases state@.len() - i,
    {
        proof {
            lemma_good_positions_step(state@, i as int);
        }
        if state[i] == GOOD {
            out.push(i);
        }
        i = i + 1;
    }
    assert(state@.subrange(0, state@.len() as int) =~= state@);
    out
}

/// Number of good rays in a state column.
pub fn count_good(state: &Vec<i32>) -> (r: usize)
    ensures
        r == good_positions(state@).len(),
{
    let mut n: usize = 0;
    let mut i: usize = 0;
    while i < state.len()
        invariant
            i <= state@.len(),
            n == good_positions(state@.subrange(0, i as int)).len(),
            n <= i,
        decreases state@.len() - i,
    {
        proof {
            lemma_good_positions_step(state@, i as int);
        }
        if state[i] == GOOD {
            n = n + 1;
        }
        i = i + 1;
    }
    assert(state@.subrange(0, state@.len() as int) =~= state@);
    n
}

impl<F: Copy, C: Copy> Beam<F, C> {
    /// Create a new beam with `nrays` rays, all initialized to defaults:
    /// position and directions `zero` except `b = one` (along +y), state 0,
    /// energy `default_energy`, path 0, coherency `jss = one`, `jpp = zero`,
    /// `jsp = czero`, no optional columns, and zero source parameters.
    pub fn new(nrays: usize, zero: F, one: F, default_energy: F, czero: C) -> (r: Self)
        ensures
            r.x@ == filled(nrays as nat, zero),
            r.y@ == filled(nrays as nat, zero),
            r.z@ == filled(nrays as nat, zero),
            r.a@ == filled(nrays as nat, zero),
            r.b@ == filled(nrays as nat, one),
            r.c@ == filled(nrays as nat, zero),
            r.state@ == filled(nrays as nat, 0i32),
            r.e@ == filled(nrays as nat, default_energy),
            r.path@ == filled(nrays as nat, zero),
            r.jss@ == filled(nrays as nat, one),
            r.jpp@ == filled(nrays as nat, zero),
            r.jsp@ == filled(nrays as nat, czero),
            r.amplitudes is None,
            r.source_sigma_x == zero,
            r.source_sigma_z == zero,
            r.filament_dx == zero,
            r.filament_dz == zero,
            r.filament_dtheta == zero,
            r.filament_dpsi == zero,
            r.filament_dgamma == zero,
            r.theta is None,
            r.order is None,
            r.n_refl is None,
            r.elevation is None,
            r.parametric is None,
            r.optionals_fit(),
    {
        Self {
            x: fill_column(nrays, zero),
            y: fill_column(nrays, zero),
            z: fill_column(nrays, zero),
            a: fill_column(nrays, zero),
            b: fill_column(nrays, one),
            c: fill_column(nrays, zero),
            state: fill_column(nrays, 0i32),
            e: fill_column(nrays, default_energy),
            path: fill_column(nrays, zero),
            jss: fill_column(nrays, one),
            jpp: fill_column(nrays, zero),
            jsp: fill_column(nrays, czero),
            amplitudes: None,
            source_sigma_x: zero,
            source_sigma_z: zero,
            filament_dx: zero,
            filament_dz: zero,
            filament_dtheta: zero,
            filament_dpsi: zero,
            filament_dgamma: zero,
            theta: None,
            order: None,
            n_refl: None,
            elevation: None,
            parametric: None,
        }
    }

    /// Create a new beam with field amplitudes allocated (all `czero`),
    /// otherwise as [`Beam::new`].
    pub fn with_amplitudes(nrays: usize, zero: F, one: F, default_energy: F, czero: C) -> (r: Self)
        ensures
            r.x@ == filled(nrays as nat, zero),
            r.y@ == filled(nrays as nat, zero),
            r.z@ == filled(nrays as nat, zero),
            r.a@ == filled(nrays as nat, zero),
            r.b@ == filled(nrays as nat, one),
            r.c@ == filled(nrays as nat, zero),
            r.state@ == filled(nrays as nat, 0i32),
            r.e@ == filled(nrays as nat, default_energy),
            r.path@ == filled(nrays as nat, zero),
            r.jss@ == filled(nrays as nat, one),
            r.jpp@ == filled(nrays as nat, zero),
            r.jsp@ == filled(nrays as nat, czero),
            r.amplitudes matches Some(am) && am.es@ == filled(nrays as nat, czero) && am.ep@
                == filled(nrays as nat, czero),
            r.source_sigma_x == zero,
            r.source_sigma_z == zero,
            r.filament_dx == zero,
            r.filament_dz == zero,
            r.filament_dtheta == zero,
            r.filament_dpsi == zero,
            r.filament_dgamma == zero,
            r.theta is None,
            r.order is None,
            r.n_refl is None,
            r.elevation is None,
            r.parametric is None,
            r.optionals_fit(),
    {
        let mut beam = Self::new(nrays, zero, one, default_energy, czero);
        beam.ensure_amplitudes(czero);
        beam
    }

    /// Create a minimal beam with only position columns (`nrays` copies of
    /// `zero` each); every other column is empty and no optional column is present.
    pub fn xyz_only(nrays: usize, zero: F) -> (r: Self)
        ensures
            r.x@ == filled(nrays as nat, zero),
            r.y@ == filled(nrays as nat, zero),
            r.z@ == filled(nrays as nat, zero),
            r.a@.len() == 0,
            r.b@.len() == 0,
            r.c@.len() == 0,
            r.state@.len() == 0,
            r.e@.len() == 0,
            r.path@.len() == 0,
            r.jss@.len() == 0,
            r.jpp@.len() == 0,
            r.jsp@.len() == 0,
            r.amplitudes is None,
            r.source_sigma_x == zero,
            r.source_sigma_z == zero,
            r.filament_dx == zero,
            r.filament_dz == zero,
            r.filament_dtheta == zero,
            r.filament_dpsi == zero,
            r.filament_dgamma == zero,
            r.theta is None,
            r.order is None,
            r.n_refl is None,
            r.elevation is None,
            r.parametric is None,
            r.optionals_fit(),
    {
        Self {
            x: fill_column(nrays, zero),
            y: fill_column(nrays, zero),
            z: fill_column(nrays, zero),
            a: Vec::new(),
            b: Vec::new(),
            c: Vec::new(),
            state: Vec::new(),
            e: Vec::new(),
            path: Vec::new(),
            jss: Vec::new(),
            jpp: Vec::new(),
            jsp: Vec::new(),
            amplitudes: None,
            source_sigma_x: zero,
            source_sigma_z: zero,
            filament_dx: zero,
            filament_dz: zero,
            filament_dtheta: zero,
            filament_dpsi: zero,
            filament_dgamma: zero,
            theta: None,
            order: None,
            n_refl: None,
            elevation: None,
            parametric: None,
        }
    }

    /// Number of rays in this beam.
    pub fn nrays(&self) -> (r: usize)
        ensures
            r == self.ray_count(),
    {
        self.x.len()
    }

    /// Field amplitudes, if this beam carries them.
    pub fn amplitudes(&self) -> (r: Option<&Amplitudes<C>>)
        ensures
            r == match self.amplitudes {
                Some(am) => Some(&am),
                None => None,
            },
    {
        self.amplitudes.as_ref()
    }

    /// Allocate the field amplitudes (at `czero`) if absent, and return them.
    pub fn ensure_amplitudes(&mut self, czero: C) -> (r: &mut Amplitudes<C>)
        ensures
            match old(self).amplitudes {
                Some(am) => *r == am,
                None => r.es@ == filled(old(self).ray_count(), czero) && r.ep@ == filled(
                    old(self).ray_count(),
                    czero,
                ),
            },
            final(self).amplitudes == Some(*final(r)),
            *final(self) == (Beam { amplitudes: final(self).amplitudes, ..*old(self) }),
    {
        if self.amplitudes.is_none() {
            let n = self.x.len();
            self.amplitudes = Some(Amplitudes::zeros(n, czero));
        }
        match &mut self.amplitudes {
            Some(am) => am,
            None => {
                proof {
                    assert(false);
                }
                unreached()
            },
        }
    }

    /// Field amplitudes for in-place modification, if this beam carries them.
    pub fn amplitudes_mut(&mut self) -> (r: Option<&mut Amplitudes<C>>)
        ensures
            match r {
                Some(am) => old(self).amplitudes == Some(*am) && final(self).amplitudes == Some(
                    *final(am),
                ),
                None => old(self).amplitudes is None && final(self).amplitudes is None,
            },
            *final(self) == (Beam { amplitudes: final(self).amplitudes, ..*old(self) }),
    {
        self.amplitudes.as_mut()
    }

    /// Elevation above the optical surface, if this beam carries it.
    pub fn elevation(&self) -> (r: Option<&Elevation<F>>)
        ensures
            r == match self.elevation {
                Some(el) => Some(&el),
                None => None,
            },
    {
        self.elevation.as_ref()
    }

    /// Allocate the elevation columns (at `zero`) if absent, and return them.
    pub fn ensure_elevation(&mut self, zero: F) -> (r: &mut Elevation<F>)
        ensures
            match old(self).elevation {
                Some(el) => *r == el,
                None => {
                    &&& r.d@ == filled(old(self).ray_count(), zero)
                    &&& r.x@ == filled(old(self).ray_count(), zero)
                    &&& r.y@ == filled(old(self).ray_count(), zero)
                    &&& r.z@ == filled(old(self).ray_count(), zero)
                },
            },
            final(self).elevation == Some(*final(r)),
            *final(self) == (Beam { elevation: final(self).elevation, ..*old(self) }),
    {
        if self.elevation.is_none() {
            let n = self.x.len();
            self.elevation = Some(Elevation::zeros(n, zero));
        }
        match &mut self.elevation {
            Some(el) => el,
            None => {
                proof {
                    assert(false);
                }
                unreached()
            },
        }
    }

    /// Elevation for in-place modification, if this beam carries it.
    pub fn elevation_mut(&mut self) -> (r: Option<&mut Elevation<F>>)
        ensures
            match r {
                Some(el) => old(self).elevation == Some(*el) && final(self).elevation == Some(
                    *final(el),
                ),
                None => old(self).elevation is None && final(self).elevation is None,
            },
            *final(self) == (Beam { elevation: final(self).elevation, ..*old(self) }),
    {
        self.elevation.as_mut()
    }

    /// Parametric surface coordinates, if this beam carries them.
    pub fn parametric(&self) -> (r: Option<&Parametric<F>>)
        ensures
            r == match self.parametric {
                Some(pa) => Some(&pa),
                None => None,
            },
    {
        self.parametric.as_ref()
    }

    /// Parametric coordinates for in-place modification, if present.
    pub fn parametric_mut(&mut self) -> (r: Option<&mut Parametric<F>>)
        ensures
            match r {
                Some(pa) => old(self).parametric == Some(*pa) && final(self).parametric == Some(
                    *final(pa),
                ),
                None => old(self).parametric is None && final(self).parametric is None,
            },
            *final(self) == (Beam { parametric: final(self).parametric, ..*old(self) }),
    {
        self.parametric.as_mut()
    }

    /// Allocate the parametric coordinates (at `zero`) if absent, and return them.
    pub fn ensure_parametric(&mut self, zero: F) -> (r: &mut Parametric<F>)
        ensures
            match old(self).parametric {
                Some(pa) => *r == pa,
                None => {
                    &&& r.s@ == filled(old(self).ray_count(), zero)
                    &&& r.phi@ == filled(old(self).ray_count(), zero)
                    &&& r.r@ == filled(old(self).ray_count(), zero)
                },
            },
            final(self).parametric == Some(*final(r)),
            *final(self) == (Beam { parametric: final(self).parametric, ..*old(self) }),
    {
        if self.parametric.is_none() {
            let n = self.x.len();
            self.parametric = Some(Parametric::zeros(n, zero));
        }
        match &mut self.parametric {
            Some(pa) => pa,
            None => {
                proof {
                    assert(false);
                }
                unreached()
            },
        }
    }

    /// Incidence angle of every ray, if this beam carries it.
    pub fn theta(&self) -> (r: Option<&Vec<F>>)
        ensures
            r == match self.theta {
                Some(t) => Some(&t),
                None => None,
            },
    {
        self.theta.as_ref()
    }

    /// Allocate the incidence angles (at `zero`) if absent, and return them.
    pub fn ensure_theta(&mut self, zero: F) -> (r: &mut Vec<F>)
        ensures
            match old(self).theta {
                Some(t) => *r == t,
                None => r@ == filled(old(self).ray_count(), zero),
            },
            final(self).theta == Some(*final(r)),
            *final(self) == (Beam { theta: final(self).theta, ..*old(self) }),
    {
        if self.theta.is_none() {
            let n = self.x.len();
            self.theta = Some(fill_column(n, zero));
        }
        match &mut self.theta {
            Some(t) => t,
            None => {
                proof {
                    assert(false);
                }
                unreached()
            },
        }
    }

    /// Diffraction order of every ray, if this beam carries it.
    pub fn order(&self) -> (r: Option<&Vec<i32>>)
        ensures
            r == match self.order {
                Some(o) => Some(&o),
                None => None,
            },
    {
        self.order.as_ref()
    }

    /// Allocate the diffraction orders (at 0) if absent, and return them.
    pub fn ensure_order(&mut self) -> (r: &mut Vec<i32>)
        ensures
            match old(self).order {
                Some(o) => *r == o,
                None => r@ == filled(old(self).ray_count(), 0i32),
            },
            final(self).order == Some(*final(r)),
            *final(self) == (Beam { order: final(self).order, ..*old(self) }),
    {
        if self.order.is_none() {
            let n = self.x.len();
            self.order = Some(fill_column(n, 0i32));
        }
        match &mut self.order {
            Some(o) => o,
            None => {
                proof {
                    assert(false);
                }
                unreached()
            },
        }
    }

    /// Reflection count of every ray, if this beam carries it.
    pub fn n_refl(&self) -> (r: Option<&Vec<i32>>)
        ensures
            r == match self.n_refl {
                Some(n) => Some(&n),
                None => None,
            },
    {
        self.n_refl.as_ref()
    }

    /// Allocate the reflection counts (at 0) if absent, and return them.
    pub fn ensure_n_refl(&mut self) -> (r: &mut Vec<i32>)
        ensures
            match old(self).n_refl {
                Some(n) => *r == n,
                None => r@ == filled(old(self).ray_count(), 0i32),
            },
            final(self).n_refl == Some(*final(r)),
            *final(self) == (Beam { n_refl: final(self).n_refl, ..*old(self) }),
    {
        if self.n_refl.is_none() {
            let n = self.x.len();
            self.n_refl = Some(fill_column(n, 0i32));
        }
        match &mut self.n_refl {
            Some(n) => n,
            None => {
                proof {
                    assert(false);
                }
                unreached()
            },
        }
    }

    /// Set all ray states to a given value.
    pub fn set_state(&mut self, state: RayState)
        ensures
            final(self).state@ == filled(old(self).state@.len(), state_code(state) as i32),
            *final(self) == (Beam { state: final(self).state, ..*old(self) }),
    {
        let code = state.code();
        let n = self.state.len();
        let mut i: usize = 0;
        while i < n
            invariant
                i <= n,
                n == self.state@.len(),
                code == state_code(state),
                *self == (Beam { state: self.state, ..*old(self) }),
                forall|k: int| 0 <= k < i ==> #[trigger] self.state@[k] == code,
                forall|k: int| i <= k < n ==> #[trigger] self.state@[k] == old(self).state@[k],
            decreases n - i,
        {
            self.state.set(i, code);
            i = i + 1;
        }
        assert(self.state@ =~= filled(n as nat, code));
    }

    /// Filter beam to only include rays at the given indices, in that order.
    pub fn filter_by_index(&self, indices: &[usize]) -> (r: Self)
        requires
            self.covers(indices@),
        ensures
            r.is_selection_of(self, indices@),
            r.optionals_fit(),
            r.ray_count() == indices@.len(),
    {
        Self {
            x: pick_column(&self.x, indices),
            y: pick_column(&self.y, indices),
            z: pick_column(&self.z, indices),
            a: pick_column(&self.a, indices),
            b: pick_column(&self.b, indices),
            c: pick_column(&self.c, indices),
            state: pick_column(&self.state, indices),
            e: pick_column(&self.e, indices),
            path: pick_column(&self.path, indices),
            jss: pick_column(&self.jss, indices),
            jpp: pick_column(&self.jpp, indices),
            jsp: pick_column(&self.jsp, indices),
            amplitudes: match &self.amplitudes {
                Some(am) => Some(am.pick(indices)),
                None => None,
            },
            source_sigma_x: self.source_sigma_x,
            source_sigma_z: self.source_sigma_z,
            filament_dx: self.filament_dx,
            filament_dz: self.filament_dz,
            filament_dtheta: self.filament_dtheta,
            filament_dpsi: self.filament_dpsi,
            filament_dgamma: self.filament_dgamma,
            theta: pick_optional(&self.theta, indices),
            order: pick_optional(&self.order, indices),
            n_refl: pick_optional(&self.n_refl, indices),
            elevation: match &self.elevation {
                Some(el) => Some(el.pick(indices)),
                None => None,
            },
            parametric: match &self.parametric {
                Some(pa) => Some(pa.pick(indices)),
                None => None,
            },
        }
    }

    /// Get indices of all good rays, in increasing order.
    pub fn good_indices(&self) -> (r: Vec<usize>)
        ensures
            r@ == good_positions(self.state@),
    {
        good_positions_of(&self.state)
    }

    /// Filter to only "good" rays (state == 1), keeping their order.
    pub fn filter_good(&self) -> (r: Self)
        requires
            self.covers(good_positions(self.state@)),
        ensures
            r.is_selection_of(self, good_positions(self.state@)),
            r.optionals_fit(),
            forall|k: int| 0 <= k < r.state@.len() ==> #[trigger] r.state@[k] == GOOD,
    {
        let total = self.state.len();
        let indices = self.good_indices();
        let r = self.filter_by_index(indices.as_slice());
        proof {
            assert(self.state@.len() == total);
            lemma_good_selection(*self, r);
        }
        r
    }

    /// Get (x, z) footprint positions of the good rays, in increasing ray order.
    pub fn footprint(&self) -> (r: (Vec<F>, Vec<F>))
        requires
            all_below(good_positions(self.state@), self.x@.len()),
            all_below(good_positions(self.state@), self.z@.len()),
        ensures
            r.0@ == picked(self.x@, good_positions(self.state@)),
            r.1@ == picked(self.z@, good_positions(self.state@)),
    {
        let good = self.good_indices();
        (pick_column(&self.x, good.as_slice()), pick_column(&self.z, good.as_slice()))
    }

    /// Concatenate another beam onto this one.
    ///
    /// An optional column survives only when both beams carry it; so when the
    /// optional columns of both beams fit, those of the result fit too.
    pub fn concatenate(&mut self, other: &Self)
        requires
            old(self).all_columns_within(usize::MAX as nat / 2),
            other.all_columns_within(usize::MAX as nat / 2),
        ensures
            final(self).is_join_of(&*old(self), other),
            old(self).optionals_fit() && other.optionals_fit() ==> final(self).optionals_fit(),
    {
        self.x = concat_column(&self.x, &other.x);
        self.y = concat_column(&self.y, &other.y);
        self.z = concat_column(&self.z, &other.z);
        self.a = concat_column(&self.a, &other.a);
        self.b = concat_column(&self.b, &other.b);
        self.c = concat_column(&self.c, &other.c);
        self.state = concat_column(&self.state, &other.state);
        self.e = concat_column(&self.e, &other.e);
        self.path = concat_column(&self.path, &other.path);
        self.jss = concat_column(&self.jss, &other.jss);
        self.jpp = concat_column(&self.jpp, &other.jpp);
        self.jsp = concat_column(&self.jsp, &other.jsp);
        self.amplitudes = Amplitudes::concat(&self.amplitudes, &other.amplitudes);
        self.elevation = Elevation::concat(&self.elevation, &other.elevation);
        self.parametric = Parametric::concat(&self.parametric, &other.parametric);
        self.theta = concat_optional(&self.theta, &other.theta);
        self.order = concat_optional(&self.order, &other.order);
        self.n_refl = concat_optional(&self.n_refl, &other.n_refl);
    }
}

} // verus!

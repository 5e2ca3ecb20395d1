//! Rotation sequences: which axes an optical element is rotated about, in which order.
use vstd::prelude::*;
use crate::error::XrtError;
use vstd::string::StringSliceAdditionalSpecFns;

verus! {

broadcast use vstd::string::group_string_axioms;

/// Rotation axis identifier.
#[derive(Debug, Clone, Copy, PartialEq, Eq, Structural)]
pub enum Axis {
    X,
    Y,
    Z,
}

/// The axis that a lower-case axis letter names (`x`, `y` or `z`).
pub open spec fn axis_of_letter(b: u8) -> Option<Axis> {
    if b == 120u8 {
        Some(Axis::X)
    } else if b == 121u8 {
        Some(Axis::Y)
    } else if b == 122u8 {
        Some(Axis::Z)
    } else {
        None
    }
}

/// A sequence written in reversed form starts with a minus sign.
pub open spec fn is_reversed_form(b: Seq<u8>) -> bool {
    b.len() > 0 && b[0] == 45u8
}

/// The bytes after the optional leading minus sign.
pub open spec fn sequence_body(b: Seq<u8>) -> Seq<u8> {
    if is_reversed_form(b) {
        b.drop_first()
    } else {
        b
    }
}

/// Three `R`s, each followed by an axis letter, and nothing else.
pub open spec fn is_axis_triple(body: Seq<u8>) -> bool {
    &&& body.len() == 6
    &&& forall|i: int| 0 <= i < 3 ==> #[trigger] body[2 * i] == 82u8
    &&& forall|i: int| 0 <= i < 3 ==> (#[trigger] axis_of_letter(body[2 * i + 1])) is Some
}

/// The axes of a well-formed body, in written order.
pub open spec fn written_axes(body: Seq<u8>) -> Seq<Axis> {
    seq![
        axis_of_letter(body[1])->0,
        axis_of_letter(body[3])->0,
        axis_of_letter(body[5])->0,
    ]
}

/// What a rotation sequence (given by its UTF-8 bytes) denotes: the axes in
/// application order, reversed for the minus form, or `None` if it is malformed.
pub open spec fn rotation_axes(b: Seq<u8>) -> Option<Seq<Axis>> {
    let body = sequence_body(b);
    if is_axis_triple(body) {
        if is_reversed_form(b) {
            Some(written_axes(body).reverse())
        } else {
            Some(written_axes(body))
        }
    } else {
        None
    }
}

fn axis_from_letter(b: u8) -> (r: Option<Axis>)
    ensures
        r == axis_of_letter(b),
{
    if b == 120u8 {
        Some(Axis::X)
    } else if b == 121u8 {
        Some(Axis::Y)
    } else if b == 122u8 {
        Some(Axis::Z)
    } else {
        None
    }
}

/// Parse a rotation sequence string (e.g. "RzRyRx" or "-RzRyRx") into
/// an ordered list of axes.
///
/// Standard form: "RzRyRx" → [Z, Y, X]
/// Reversed form: "-RzRyRx" → [X, Y, Z]
pub fn parse_rotation_sequence(seq: &str) -> (r: Result<[Axis; 3], XrtError>)
    ensures
        match r {
            Ok(axes) => rotation_axes(seq.spec_bytes()) == Some(axes@),
            Err(e) => rotation_axes(seq.spec_bytes()) is None
                && (e matches XrtError::InvalidRotationSequence(m) && m@ == seq@),
        },
{
    let bytes = seq.as_bytes();
    let reversed = bytes.len() > 0 && bytes[0] == 45u8;
    let start: usize = if reversed { 1 } else { 0 };
    let ghost body = sequence_body(bytes@);
    assert(body =~= bytes@.subrange(start as int, bytes@.len() as int));
    if bytes.len() - start != 6 {
        return Err(XrtError::InvalidRotationSequence(seq.to_string()));
    }
    let mut found: [Axis; 3] = [Axis::X, Axis::X, Axis::X];
    let mut i: usize = 0;
    while i < 3
        invariant
            0 <= i <= 3,
            bytes@ == seq.spec_bytes(),
            body == sequence_body(bytes@),
            body =~= bytes@.subrange(start as int, bytes@.len() as int),
            bytes@.len() == start + 6,
            forall|j: int| 0 <= j < i ==> #[trigger] body[2 * j] == 82u8,
            forall|j: int| 0 <= j < i ==> axis_of_letter(body[2 * j + 1]) == Some(#[trigger] found@[j]),
        decreases 3 - i,
    {
        let letter = bytes[start + 2 * i];
        let named = bytes[start + 2 * i + 1];
        if letter != 82u8 {
            assert(body[2 * (i as int)] != 82u8);
            return Err(XrtError::InvalidRotationSequence(seq.to_string()));
        }
        match axis_from_letter(named) {
            Some(a) => {
                found[i] = a;
            },
            None => {
                assert(axis_of_letter(body[2 * (i as int) + 1]) is None);
                return Err(XrtError::InvalidRotationSequence(seq.to_string()));
            },
        }
        i = i + 1;
    }
    assert(axis_of_letter(body[1]) == Some(found@[0]));
    assert(axis_of_letter(body[3]) == Some(found@[1]));
    assert(axis_of_letter(body[5]) == Some(found@[2]));
    assert(is_axis_triple(body));
    if reversed {
        let rev: [Axis; 3] = [found[2], found[1], found[0]];
        assert(rev@ =~= written_axes(body).reverse());
        Ok(rev)
    } else {
        assert(found@ =~= written_axes(body));
        Ok(found)
    }
}

/// Writing a minus sign in front of a sequence that has none reverses the
/// order in which its axes are applied, and keeps a malformed sequence malformed.
pub proof fn lemma_minus_reverses(b: Seq<u8>)
    requires
        !is_reversed_form(b),
    ensures
        rotation_axes(seq![45u8] + b) == match rotation_axes(b) {
            Some(axes) => Some(axes.reverse()),
            None => None,
        },
{
    let m = seq![45u8] + b;
    assert(is_reversed_form(m));
    assert(sequence_body(m) =~= b);
    assert(sequence_body(b) == b);
}

/// A well-formed sequence is six bytes long, or seven with the minus sign.
pub proof fn lemma_well_formed_length(b: Seq<u8>)
    requires
        rotation_axes(b) is Some,
    ensures
        b.len() == if is_reversed_form(b) { 7int } else { 6int },
{
}

/// A sequence without the minus sign gives the written axes in written order,
/// and with it the written axes in reverse order: `R a R b R c` gives the
/// axes named by the letters `a`, `b`, `c` (`x` is X, `y` is Y, `z` is Z).
pub proof fn lemma_written_order(a: u8, b: u8, c: u8)
    requires
        120u8 <= a <= 122u8,
        120u8 <= b <= 122u8,
        120u8 <= c <= 122u8,
    ensures
        ({
            let r = rotation_axes(seq![82u8, a, 82u8, b, 82u8, c]);
            &&& r is Some
            &&& r->0.len() == 3
            &&& (r->0[0] == Axis::X <==> a == 120u8) && (r->0[0] == Axis::Y <==> a == 121u8)
            &&& (r->0[1] == Axis::X <==> b == 120u8) && (r->0[1] == Axis::Y <==> b == 121u8)
            &&& (r->0[2] == Axis::X <==> c == 120u8) && (r->0[2] == Axis::Y <==> c == 121u8)
        }),
        ({
            let r = rotation_axes(seq![45u8, 82u8, a, 82u8, b, 82u8, c]);
            &&& r is Some
            &&& r->0.len() == 3
            &&& (r->0[2] == Axis::X <==> a == 120u8) && (r->0[2] == Axis::Y <==> a == 121u8)
            &&& (r->0[1] == Axis::X <==> b == 120u8) && (r->0[1] == Axis::Y <==> b == 121u8)
            &&& (r->0[0] == Axis::X <==> c == 120u8) && (r->0[0] == Axis::Y <==> c == 121u8)
        }),
{
    let s = seq![82u8, a, 82u8, b, 82u8, c];
    let m = seq![45u8, 82u8, a, 82u8, b, 82u8, c];
    assert(sequence_body(s) == s);
    assert(sequence_body(m) =~= s);
    assert forall|i: int| 0 <= i < 3 implies #[trigger] s[2 * i] == 82u8 && (#[trigger] axis_of_letter(s[2 * i + 1])) is Some by {
        assert(i == 0 || i == 1 || i == 2);
    }
    assert(is_axis_triple(s));
}

} // verus!

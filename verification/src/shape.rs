//! Structural classification of a field's declared type.

use vstd::prelude::*;
use crate::text::str_eq;

verus! {

/// The structural shape of a field: a plain scalar value, an optional wrapper
/// around one value, or a growable sequence of values. The inner element type
/// of an `Optional` or `Sequence` is treated as an opaque scalar.
#[derive(Clone, Copy, PartialEq, Eq, Structural, Debug)]
pub enum Shape {
    Scalar,
    Optional,
    Sequence,
}

/// Classification by the outer type constructor's name alone: the standard
/// optional wrapper, the standard growable sequence, and everything else a
/// scalar. There is no recursion into nested type parameters.
pub open spec fn spec_classify(outer: Seq<char>) -> Shape {
    if outer == "Option"@ {
        Shape::Optional
    } else if outer == "Vec"@ {
        Shape::Sequence
    } else {
        Shape::Scalar
    }
}

/// Assigns a shape to a declared type, given the name of its outer type
/// constructor. An unrecognized constructor always falls back to `Scalar`;
/// there is no failure path.
pub fn classify(outer: &str) -> (s: Shape)
    ensures
        s == spec_classify(outer@),
{
    if str_eq(outer, "Option") {
        Shape::Optional
    } else if str_eq(outer, "Vec") {
        Shape::Sequence
    } else {
        Shape::Scalar
    }
}

} // verus!

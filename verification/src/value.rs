//! Runtime representation of a record instance: one value per field, each
//! value carrying its own structural shape.

use vstd::prelude::*;
use crate::shape::Shape;

verus! {

/// The value of one field of a record instance. The element type is the
/// opaque scalar of this vocabulary: a string.
#[derive(Debug, PartialEq, Eq)]
pub enum FieldValue {
    Scalar(String),
    Optional(Option<String>),
    Sequence(Vec<String>),
}

/// The mathematical model of a field value.
#[verifier::ext_equal]
pub enum FieldValueV {
    Scalar(Seq<char>),
    Optional(Option<Seq<char>>),
    Sequence(Seq<Seq<char>>),
}

impl View for FieldValue {
    type V = FieldValueV;

    open spec fn view(&self) -> FieldValueV {
        match self {
            FieldValue::Scalar(s) => FieldValueV::Scalar(s@),
            FieldValue::Optional(o) => FieldValueV::Optional(
                match o {
                    Some(s) => Some(s@),
                    None => None,
                },
            ),
            FieldValue::Sequence(vs) => FieldValueV::Sequence(
                vs@.map_values(|s: String| s@),
            ),
        }
    }
}

/// A record instance: the field values, in the schema's field order.
#[derive(Debug, PartialEq, Eq)]
pub struct Record {
    pub values: Vec<FieldValue>,
}

impl View for Record {
    type V = Seq<FieldValueV>;

    open spec fn view(&self) -> Seq<FieldValueV> {
        self.values@.map_values(|v: FieldValue| v@)
    }
}

/// Whether a value has the given structural shape.
pub open spec fn value_has_shape(v: FieldValueV, s: Shape) -> bool {
    match (v, s) {
        (FieldValueV::Scalar(_), Shape::Scalar) => true,
        (FieldValueV::Optional(_), Shape::Optional) => true,
        (FieldValueV::Sequence(_), Shape::Sequence) => true,
        _ => false,
    }
}

/// Emptiness of a value: the empty string, the absent optional or an optional
/// holding the empty string, or the empty sequence.
pub open spec fn value_is_empty(v: FieldValueV) -> bool {
    match v {
        FieldValueV::Scalar(s) => s.len() == 0,
        FieldValueV::Optional(o) => match o {
            Some(s) => s.len() == 0,
            None => true,
        },
        FieldValueV::Sequence(es) => es.len() == 0,
    }
}

/// Returns a value equal to the given one.
pub fn copy_value(v: &FieldValue) -> (r: FieldValue)
    ensures
        r@ == v@,
{
    match v {
        FieldValue::Scalar(s) => FieldValue::Scalar(s.clone()),
        FieldValue::Optional(o) => FieldValue::Optional(
            match o {
                Some(s) => Some(s.clone()),
                None => None,
            },
        ),
        FieldValue::Sequence(vs) => {
            let copied = clone_strings(vs);
            proof {
                assert(copied@.map_values(|s: String| s@) =~= vs@.map_values(|s: String| s@));
            }
            FieldValue::Sequence(copied)
        },
    }
}

/// Returns a vector of strings equal to the given one.
pub fn clone_strings(vs: &Vec<String>) -> (r: Vec<String>)
    ensures
        r@ == vs@,
{
    let mut out: Vec<String> = Vec::new();
    let mut i: usize = 0;
    while i < vs.len()
        invariant
            0 <= i <= vs@.len(),
            out@.len() == i,
            forall|k: int| 0 <= k < i ==> out@[k] == vs@[k],
        decreases vs@.len() - i,
    {
        out.push(vs[i].clone());
        i = i + 1;
    }
    proof {
        assert(out@ =~= vs@);
    }
    out
}

} // verus!

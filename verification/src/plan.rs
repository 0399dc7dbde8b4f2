//! Transform synthesis: from a schema to a per-field plan of encode and
//! decode actions.

use vstd::prelude::*;
use crate::schema::{FieldDescV, FieldDescriptor, RecordSchema, SchemaV};
use crate::shape::Shape;
use crate::text::{digest_base_name, spec_digest_base, spec_is_digest_name, str_eq};

verus! {

/// What the encode operation does to one field: copy it unchanged, pass it
/// through the service's encode capability (guarded by the emptiness check), or
/// derive it from the base field at the given index with the digest function.
#[derive(Clone, Copy, PartialEq, Eq, Structural, Debug)]
pub enum EncodeAction {
    Copy,
    Encrypt,
    Digest { base: usize },
}

/// What the decode operation does to one field: copy it unchanged, or pass it
/// through the service's decode capability (guarded by the emptiness check).
/// Digest fields are one-way and are always copied on decode.
#[derive(Clone, Copy, PartialEq, Eq, Structural, Debug)]
pub enum DecodeAction {
    Copy,
    Decrypt,
}

/// The derived plan for one field: its two actions.
#[derive(Clone, Copy, PartialEq, Eq, Structural, Debug)]
pub struct FieldPlan {
    pub encode: EncodeAction,
    pub decode: DecodeAction,
}

/// The index of the first field with the given name, scanning in declaration
/// order.
pub open spec fn spec_find_from(fields: Seq<FieldDescV>, name: Seq<char>, k: int) -> Option<int>
    decreases fields.len() - k,
{
    if k < 0 || k >= fields.len() {
        None
    } else if fields[k].name == name {
        Some(k)
    } else {
        spec_find_from(fields, name, k + 1)
    }
}

pub open spec fn spec_field_index(fields: Seq<FieldDescV>, name: Seq<char>) -> Option<int> {
    spec_find_from(fields, name, 0)
}

/// The digest rule applies to a field when no explicit `encrypt` flag wins,
/// a digest function is configured, the field is a plain scalar named
/// `"<base>_digest"`, and `<base>` is itself a scalar field of the record.
/// When any part of this fails, the field falls back to plain copy-through.
pub open spec fn spec_digest_applies(schema: SchemaV, i: int) -> bool {
    &&& !schema.fields[i].encrypt
    &&& schema.has_digest
    &&& schema.fields[i].shape == Shape::Scalar
    &&& spec_is_digest_name(schema.fields[i].name)
    &&& match spec_field_index(schema.fields, spec_digest_base(schema.fields[i].name)) {
        Some(b) => schema.fields[b].shape == Shape::Scalar,
        None => false,
    }
}

/// The index of the base field that a digest field derives from.
pub open spec fn spec_base_index(schema: SchemaV, i: int) -> int {
    spec_field_index(schema.fields, spec_digest_base(schema.fields[i].name))->Some_0
}

/// The encode action for one field, in priority order: the explicit `encrypt`
/// flag first, then the digest rule, then copy-through.
pub open spec fn spec_encode_action(schema: SchemaV, i: int) -> EncodeAction {
    if schema.fields[i].encrypt {
        EncodeAction::Encrypt
    } else if spec_digest_applies(schema, i) {
        EncodeAction::Digest { base: spec_base_index(schema, i) as usize }
    } else {
        EncodeAction::Copy
    }
}

/// The decode action for one field: the `decrypt` flag alone decides.
pub open spec fn spec_decode_action(schema: SchemaV, i: int) -> DecodeAction {
    if schema.fields[i].decrypt {
        DecodeAction::Decrypt
    } else {
        DecodeAction::Copy
    }
}

/// Position and name of the field that a successful search returns, and the
/// absence of the name when the search fails.
pub proof fn lemma_find_from(fields: Seq<FieldDescV>, name: Seq<char>, k: int)
    requires
        0 <= k,
    ensures
        match spec_find_from(fields, name, k) {
            Some(b) => k <= b < fields.len() && fields[b].name == name && (forall|m: int|
                k <= m < b ==> fields[m].name != name),
            None => forall|m: int| k <= m < fields.len() ==> fields[m].name != name,
        },
    decreases fields.len() - k,
{
    if k >= fields.len() {
    } else if fields[k].name == name {
    } else {
        lemma_find_from(fields, name, k + 1);
    }
}

/// Finds the first field with the given name.
#[verifier::loop_isolation(false)]
pub fn find_field(fields: &Vec<FieldDescriptor>, name: &str) -> (r: Option<usize>)
    ensures
        match r {
            Some(b) => 0 <= b < fields@.len() && spec_field_index(
                fields@.map_values(|f: FieldDescriptor| f@),
                name@,
            ) == Some(b as int),
            None => spec_field_index(
                fields@.map_values(|f: FieldDescriptor| f@),
                name@,
            ) is None,
        },
{
    let ghost fv = fields@.map_values(|f: FieldDescriptor| f@);
    let mut i: usize = 0;
    while i < fields.len()
        invariant
            0 <= i <= fv.len(),
            spec_find_from(fv, name@, 0) == spec_find_from(fv, name@, i as int),
        decreases fv.len() - i,
    {
        if str_eq(fields[i].name.as_str(), name) {
            proof {
                assert(fv[i as int].name == name@);
            }
            return Some(i);
        }
        proof {
            assert(fv[i as int].name != name@);
        }
        i = i + 1;
    }
    None
}

/// Derives the transform plan from a schema: one entry per field, in field
/// order. The plan is derived, not stored: the transform operations compute
/// it anew from the schema on each call.
#[verifier::loop_isolation(false)]
pub fn synthesize_plan(schema: &RecordSchema) -> (plan: Vec<FieldPlan>)
    ensures
        plan@.len() == schema@.fields.len(),
        forall|i: int|
            0 <= i < plan@.len() ==> #[trigger] plan@[i] == (FieldPlan {
                encode: spec_encode_action(schema@, i),
                decode: spec_decode_action(schema@, i),
            }),
{
    let mut plan: Vec<FieldPlan> = Vec::new();
    let n = schema.fields.len();
    let mut i: usize = 0;
    while i < n
        invariant
            0 <= i <= n,
            n == schema@.fields.len(),
            plan@.len() == i,
            forall|k: int|
                0 <= k < i ==> #[trigger] plan@[k] == (FieldPlan {
                    encode: spec_encode_action(schema@, k),
                    decode: spec_decode_action(schema@, k),
                }),
        decreases n - i,
    {
        let fd = &schema.fields[i];
        let decode = if fd.decrypt {
            DecodeAction::Decrypt
        } else {
            DecodeAction::Copy
        };
        let encode = if fd.encrypt {
            EncodeAction::Encrypt
        } else if schema.has_digest && matches!(fd.shape, Shape::Scalar) {
            match digest_base_name(fd.name.as_str()) {
                Some(base) => match find_field(&schema.fields, base.as_str()) {
                    Some(b) => {
                        if matches!(schema.fields[b].shape, Shape::Scalar) {
                            EncodeAction::Digest { base: b }
                        } else {
                            EncodeAction::Copy
                        }
                    },
                    None => EncodeAction::Copy,
                },
                None => EncodeAction::Copy,
            }
        } else {
            EncodeAction::Copy
        };
        proof {
            assert(schema@.fields[i as int] == fd@);
            assert(encode == spec_encode_action(schema@, i as int));
        }
        plan.push(FieldPlan { encode, decode });
        i = i + 1;
    }
    plan
}

} // verus!

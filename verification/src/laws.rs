//! The guarantees of the transform operations, stated over their models and
//! proved once for every schema, record and service.

use vstd::prelude::*;
use crate::plan::{lemma_find_from, spec_base_index, spec_digest_applies};
use crate::schema::SchemaV;
use crate::shape::Shape;
use crate::transform::{
    record_matches, spec_decode_field_ok, spec_decode_record, spec_dec_str, spec_enc_str,
    spec_encode_field_ok, spec_encode_record, TransformService,
};
use crate::value::{value_has_shape, value_is_empty, FieldValueV};

verus! {

/// Round-trip: on a field flagged both `encrypt` and `decrypt`, decoding the
/// encoded record restores the field's original value — whatever its shape —
/// provided the service is reversible: decoding an encoded value gives the
/// value back and an encoded non-empty value is never empty.
pub proof fn lemma_round_trip<S: TransformService>(
    svc: &S,
    schema: SchemaV,
    rec: Seq<FieldValueV>,
    i: int,
)
    requires
        0 <= i < rec.len(),
        schema.fields.len() == rec.len(),
        schema.fields[i].encrypt,
        schema.fields[i].decrypt,
        forall|s: Seq<char>| s.len() > 0 ==> (#[trigger] svc.enc_spec(s)).len() > 0,
        forall|s: Seq<char>| s.len() > 0 ==> svc.dec_spec(#[trigger] svc.enc_spec(s)) == s,
    ensures
        spec_decode_record(svc, schema, spec_encode_record(svc, schema, rec))[i] == rec[i],
{
    let enc = spec_encode_record(svc, schema, rec);
    assert(enc.len() == rec.len());
    assert forall|s: Seq<char>| spec_dec_str(svc, #[trigger] spec_enc_str(svc, s)) == s by {
        if s.len() > 0 {
            assert(svc.enc_spec(s).len() > 0);
        }
    }
    match rec[i] {
        FieldValueV::Scalar(s) => {},
        FieldValueV::Optional(o) => {},
        FieldValueV::Sequence(es) => {
            let ee = es.map_values(|e: Seq<char>| spec_enc_str(svc, e));
            let dd = ee.map_values(|e: Seq<char>| spec_dec_str(svc, e));
            assert(dd =~= es);
        },
    }
}

/// Empty short-circuit: a field whose value is empty — the empty string, an
/// absent optional or one holding the empty string, or the empty sequence —
/// comes out of both operations exactly as it went in, and neither operation
/// requires any service invocation for it. The one field this cannot speak of
/// is a digest field, whose encoded value is driven by its base field's value
/// rather than its own.
pub proof fn lemma_empty_short_circuit<S: TransformService>(
    svc: &S,
    schema: SchemaV,
    rec: Seq<FieldValueV>,
    i: int,
)
    requires
        0 <= i < rec.len(),
        schema.fields.len() == rec.len(),
        value_is_empty(rec[i]),
        !spec_digest_applies(schema, i),
    ensures
        spec_encode_record(svc, schema, rec)[i] == rec[i],
        spec_decode_record(svc, schema, rec)[i] == rec[i],
        spec_encode_field_ok(svc, schema, rec, i),
        spec_decode_field_ok(svc, schema, rec, i),
{
    match rec[i] {
        FieldValueV::Scalar(s) => {},
        FieldValueV::Optional(o) => {},
        FieldValueV::Sequence(es) => {
            assert(es.map_values(|e: Seq<char>| spec_enc_str(svc, e)) =~= es);
            assert(es.map_values(|e: Seq<char>| spec_dec_str(svc, e)) =~= es);
        },
    }
}

/// Copy-through default: a field with neither flag set, and not rewritten by
/// the digest rule, is identical between input and output of both operations,
/// and both always succeed on it.
pub proof fn lemma_copy_through<S: TransformService>(
    svc: &S,
    schema: SchemaV,
    rec: Seq<FieldValueV>,
    i: int,
)
    requires
        0 <= i < rec.len(),
        schema.fields.len() == rec.len(),
        !schema.fields[i].encrypt,
        !schema.fields[i].decrypt,
        !spec_digest_applies(schema, i),
    ensures
        spec_encode_record(svc, schema, rec)[i] == rec[i],
        spec_decode_record(svc, schema, rec)[i] == rec[i],
        spec_encode_field_ok(svc, schema, rec, i),
        spec_decode_field_ok(svc, schema, rec, i),
{
}

/// Digest derivation: where the digest rule applies, the encoded field holds
/// the digest of the base field's value — or, when the base is empty, the
/// digest field's own value unchanged — and decode, the field not being
/// flagged `decrypt`, copies the encoded digest through unchanged: digests
/// are one-way.
pub proof fn lemma_digest_derivation<S: TransformService>(
    svc: &S,
    schema: SchemaV,
    rec: Seq<FieldValueV>,
    i: int,
)
    requires
        record_matches(schema, rec),
        0 <= i < rec.len(),
        spec_digest_applies(schema, i),
        !schema.fields[i].decrypt,
    ensures
        ({
            let b = spec_base_index(schema, i);
            match rec[b] {
                FieldValueV::Scalar(s) => spec_encode_record(svc, schema, rec)[i] == (if s.len()
                    == 0 {
                    rec[i]
                } else {
                    FieldValueV::Scalar(svc.digest_spec(s))
                }),
                _ => false,
            }
        }),
        spec_decode_record(svc, schema, spec_encode_record(svc, schema, rec))[i]
            == spec_encode_record(svc, schema, rec)[i],
{
    lemma_find_from(
        schema.fields,
        crate::text::spec_digest_base(schema.fields[i].name),
        0,
    );
    let b = spec_base_index(schema, i);
    assert(0 <= b < rec.len());
    assert(schema.fields[b].shape == Shape::Scalar);
    assert(value_has_shape(rec[b], Shape::Scalar));
}

/// Both operations return an instance of the same record: one value per
/// field, each of its declared shape.
pub proof fn lemma_shapes_preserved<S: TransformService>(
    svc: &S,
    schema: SchemaV,
    rec: Seq<FieldValueV>,
)
    requires
        record_matches(schema, rec),
    ensures
        record_matches(schema, spec_encode_record(svc, schema, rec)),
        record_matches(schema, spec_decode_record(svc, schema, rec)),
{
    let enc = spec_encode_record(svc, schema, rec);
    assert forall|i: int| 0 <= i < enc.len() implies value_has_shape(
        enc[i],
        schema.fields[i].shape,
    ) by {
        if schema.fields[i].encrypt {
            match rec[i] {
                FieldValueV::Scalar(s) => {},
                FieldValueV::Optional(o) => {},
                FieldValueV::Sequence(es) => {},
            }
        }
    }
    let dec = spec_decode_record(svc, schema, rec);
    assert forall|i: int| 0 <= i < dec.len() implies value_has_shape(
        dec[i],
        schema.fields[i].shape,
    ) by {
        if schema.fields[i].decrypt {
            match rec[i] {
                FieldValueV::Scalar(s) => {},
                FieldValueV::Optional(o) => {},
                FieldValueV::Sequence(es) => {},
            }
        }
    }
}

/// Optional preservation: an absent optional field remains absent through
/// both operations, and a present-but-empty optional value is copied through
/// unchanged. A present non-empty value round-trips by `lemma_round_trip`.
pub proof fn lemma_optional_preservation<S: TransformService>(
    svc: &S,
    schema: SchemaV,
    rec: Seq<FieldValueV>,
    i: int,
)
    requires
        0 <= i < rec.len(),
        schema.fields.len() == rec.len(),
        schema.fields[i].shape == Shape::Optional,
        value_has_shape(rec[i], schema.fields[i].shape),
    ensures
        rec[i] == FieldValueV::Optional(Option::<Seq<char>>::None) ==> spec_encode_record(
            svc,
            schema,
            rec,
        )[i] == rec[i] && spec_decode_record(svc, schema, rec)[i] == rec[i],
        rec[i] matches FieldValueV::Optional(Some(s)) && s.len() == 0 ==> spec_encode_record(
            svc,
            schema,
            rec,
        )[i] == rec[i] && spec_decode_record(svc, schema, rec)[i] == rec[i],
{
    assert(!spec_digest_applies(schema, i));
}

/// Sequence preservation: both operations keep a sequence field's length, and
/// an empty sequence is untouched by either. Element order is preserved: the
/// encoded element at each position is the guarded transform of the input
/// element at the same position. Each element round-trips by
/// `lemma_round_trip`.
pub proof fn lemma_sequence_preservation<S: TransformService>(
    svc: &S,
    schema: SchemaV,
    rec: Seq<FieldValueV>,
    i: int,
)
    requires
        0 <= i < rec.len(),
        schema.fields.len() == rec.len(),
        schema.fields[i].shape == Shape::Sequence,
        value_has_shape(rec[i], schema.fields[i].shape),
    ensures
        rec[i] matches FieldValueV::Sequence(es) ==> (spec_encode_record(svc, schema, rec)[i]
            matches FieldValueV::Sequence(ee) && ee.len() == es.len() && (forall|k: int|
            0 <= k < es.len() ==> ee[k] == (if schema.fields[i].encrypt {
                spec_enc_str(svc, #[trigger] es[k])
            } else {
                es[k]
            }))),
        rec[i] matches FieldValueV::Sequence(es) ==> (spec_decode_record(svc, schema, rec)[i]
            matches FieldValueV::Sequence(de) && de.len() == es.len() && (forall|k: int|
            0 <= k < es.len() ==> de[k] == (if schema.fields[i].decrypt {
                spec_dec_str(svc, #[trigger] es[k])
            } else {
                es[k]
            }))),
        rec[i] matches FieldValueV::Sequence(es) && es.len() == 0 ==> spec_encode_record(
            svc,
            schema,
            rec,
        )[i] == rec[i] && spec_decode_record(svc, schema, rec)[i] == rec[i],
{
    assert(!spec_digest_applies(schema, i));
    match rec[i] {
        FieldValueV::Sequence(es) => {
            if es.len() == 0 {
                assert(es.map_values(|e: Seq<char>| spec_enc_str(svc, e)) =~= es);
                assert(es.map_values(|e: Seq<char>| spec_dec_str(svc, e)) =~= es);
            }
        },
        _ => {},
    }
}

} // verus!

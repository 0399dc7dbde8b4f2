//! The two transform operations over a record instance: encode and decode,
//! interpreted from the synthesized plan against a pluggable transformation
//! service.

use vstd::prelude::*;
use vstd::pervasive::unreached;
use crate::plan::{
    lemma_find_from, spec_base_index, spec_decode_action, spec_digest_applies, spec_encode_action,
    synthesize_plan, DecodeAction, EncodeAction,
};
use crate::schema::{RecordSchema, SchemaV};
use crate::shape::Shape;
use crate::value::{copy_value, value_has_shape, FieldValue, FieldValueV, Record};

verus! {

/// The pluggable transformation capability that a record-level annotation
/// names: a fallible encode and decode over scalar values, and a total digest
/// function. The five specification members model the service: what each call
/// returns, and on which inputs encode and decode succeed.
pub trait TransformService {
    /// What a successful encode returns.
    spec fn enc_spec(&self, s: Seq<char>) -> Seq<char>;

    /// The inputs on which encode succeeds.
    spec fn enc_ok(&self, s: Seq<char>) -> bool;

    /// What a successful decode returns.
    spec fn dec_spec(&self, s: Seq<char>) -> Seq<char>;

    /// The inputs on which decode succeeds.
    spec fn dec_ok(&self, s: Seq<char>) -> bool;

    /// What the digest function returns.
    spec fn digest_spec(&self, s: Seq<char>) -> Seq<char>;

    /// Encodes one scalar value; fails exactly on the inputs that `enc_ok`
    /// rules out.
    fn encode_value(&self, s: &str) -> (r: Option<String>)
        ensures
            r is Some <==> self.enc_ok(s@),
            r matches Some(v) ==> v@ == self.enc_spec(s@),
    ;

    /// Decodes one scalar value; fails exactly on the inputs that `dec_ok`
    /// rules out.
    fn decode_value(&self, s: &str) -> (r: Option<String>)
        ensures
            r is Some <==> self.dec_ok(s@),
            r matches Some(v) ==> v@ == self.dec_spec(s@),
    ;

    /// Computes the digest of one scalar value; total.
    fn digest_value(&self, s: &str) -> (r: String)
        ensures
            r@ == self.digest_spec(s@),
    ;
}

/// An execution-time failure of a transform operation, naming the field whose
/// service call failed. The first failing field aborts the whole operation,
/// and the failure is reported to the caller rather than ending the process:
/// both operations are fallible by design.
#[derive(Debug, PartialEq, Eq)]
pub struct TransformError {
    pub field: String,
}

/// A record instance fits a schema: one value per field, each of the
/// declared shape.
pub open spec fn record_matches(schema: SchemaV, rec: Seq<FieldValueV>) -> bool {
    &&& rec.len() == schema.fields.len()
    &&& forall|i: int|
        0 <= i < rec.len() ==> value_has_shape(#[trigger] rec[i], schema.fields[i].shape)
}

/// One scalar through the service's encode capability, guarded by the emptiness
/// check: the service is never invoked on an empty value.
pub open spec fn spec_enc_str<S: TransformService>(svc: &S, s: Seq<char>) -> Seq<char> {
    if s.len() == 0 {
        s
    } else {
        svc.enc_spec(s)
    }
}

/// One scalar through the service's decode capability, with the same emptiness guard.
pub open spec fn spec_dec_str<S: TransformService>(svc: &S, s: Seq<char>) -> Seq<char> {
    if s.len() == 0 {
        s
    } else {
        svc.dec_spec(s)
    }
}

/// A whole field value through the emptiness-guarded encode: an absent optional is
/// preserved, a present value is treated as the scalar rule says, and a
/// sequence is transformed element by element, preserving order and length.
pub open spec fn spec_encode_value<S: TransformService>(svc: &S, v: FieldValueV) -> FieldValueV {
    match v {
        FieldValueV::Scalar(s) => FieldValueV::Scalar(spec_enc_str(svc, s)),
        FieldValueV::Optional(o) => FieldValueV::Optional(
            match o {
                Some(s) => Some(spec_enc_str(svc, s)),
                None => None,
            },
        ),
        FieldValueV::Sequence(es) => FieldValueV::Sequence(
            es.map_values(|e: Seq<char>| spec_enc_str(svc, e)),
        ),
    }
}

/// Whether every service invocation that encoding the value requires
/// succeeds. Values the emptiness guard skips require none.
pub open spec fn spec_encode_value_ok<S: TransformService>(svc: &S, v: FieldValueV) -> bool {
    match v {
        FieldValueV::Scalar(s) => s.len() == 0 || svc.enc_ok(s),
        FieldValueV::Optional(o) => match o {
            Some(s) => s.len() == 0 || svc.enc_ok(s),
            None => true,
        },
        FieldValueV::Sequence(es) => forall|k: int|
            0 <= k < es.len() ==> (#[trigger] es[k]).len() == 0 || svc.enc_ok(es[k]),
    }
}

/// A whole field value through the emptiness-guarded decode.
pub open spec fn spec_decode_value<S: TransformService>(svc: &S, v: FieldValueV) -> FieldValueV {
    match v {
        FieldValueV::Scalar(s) => FieldValueV::Scalar(spec_dec_str(svc, s)),
        FieldValueV::Optional(o) => FieldValueV::Optional(
            match o {
                Some(s) => Some(spec_dec_str(svc, s)),
                None => None,
            },
        ),
        FieldValueV::Sequence(es) => FieldValueV::Sequence(
            es.map_values(|e: Seq<char>| spec_dec_str(svc, e)),
        ),
    }
}

/// Whether every service invocation that decoding the value requires
/// succeeds.
pub open spec fn spec_decode_value_ok<S: TransformService>(svc: &S, v: FieldValueV) -> bool {
    match v {
        FieldValueV::Scalar(s) => s.len() == 0 || svc.dec_ok(s),
        FieldValueV::Optional(o) => match o {
            Some(s) => s.len() == 0 || svc.dec_ok(s),
            None => true,
        },
        FieldValueV::Sequence(es) => forall|k: int|
            0 <= k < es.len() ==> (#[trigger] es[k]).len() == 0 || svc.dec_ok(es[k]),
    }
}

/// What encode makes of field `i`: the encrypt rule, the digest override, or
/// copy-through. The digest override reads the base field of the input
/// record: an empty base copies the digest field through unchanged.
pub open spec fn spec_encode_field<S: TransformService>(
    svc: &S,
    schema: SchemaV,
    rec: Seq<FieldValueV>,
    i: int,
) -> FieldValueV {
    if schema.fields[i].encrypt {
        spec_encode_value(svc, rec[i])
    } else if spec_digest_applies(schema, i) {
        match rec[spec_base_index(schema, i)] {
            FieldValueV::Scalar(s) => if s.len() == 0 {
                rec[i]
            } else {
                FieldValueV::Scalar(svc.digest_spec(s))
            },
            _ => rec[i],
        }
    } else {
        rec[i]
    }
}

/// Whether encoding field `i` succeeds: only the encrypt rule can fail, the
/// digest function being total and copy-through being free of service calls.
pub open spec fn spec_encode_field_ok<S: TransformService>(
    svc: &S,
    schema: SchemaV,
    rec: Seq<FieldValueV>,
    i: int,
) -> bool {
    if schema.fields[i].encrypt {
        spec_encode_value_ok(svc, rec[i])
    } else {
        true
    }
}

/// What decode makes of field `i`: the decrypt rule or copy-through.
pub open spec fn spec_decode_field<S: TransformService>(
    svc: &S,
    schema: SchemaV,
    rec: Seq<FieldValueV>,
    i: int,
) -> FieldValueV {
    if schema.fields[i].decrypt {
        spec_decode_value(svc, rec[i])
    } else {
        rec[i]
    }
}

/// Whether decoding field `i` succeeds.
pub open spec fn spec_decode_field_ok<S: TransformService>(
    svc: &S,
    schema: SchemaV,
    rec: Seq<FieldValueV>,
    i: int,
) -> bool {
    if schema.fields[i].decrypt {
        spec_decode_value_ok(svc, rec[i])
    } else {
        true
    }
}

/// The encoded record: every field visited exactly once, in field order.
pub open spec fn spec_encode_record<S: TransformService>(
    svc: &S,
    schema: SchemaV,
    rec: Seq<FieldValueV>,
) -> Seq<FieldValueV> {
    Seq::new(rec.len(), |i: int| spec_encode_field(svc, schema, rec, i))
}

pub open spec fn spec_encode_record_ok<S: TransformService>(
    svc: &S,
    schema: SchemaV,
    rec: Seq<FieldValueV>,
) -> bool {
    forall|i: int| 0 <= i < rec.len() ==> spec_encode_field_ok(svc, schema, rec, i)
}

/// The decoded record: every field visited exactly once, in field order.
pub open spec fn spec_decode_record<S: TransformService>(
    svc: &S,
    schema: SchemaV,
    rec: Seq<FieldValueV>,
) -> Seq<FieldValueV> {
    Seq::new(rec.len(), |i: int| spec_decode_field(svc, schema, rec, i))
}

pub open spec fn spec_decode_record_ok<S: TransformService>(
    svc: &S,
    schema: SchemaV,
    rec: Seq<FieldValueV>,
) -> bool {
    forall|i: int| 0 <= i < rec.len() ==> spec_decode_field_ok(svc, schema, rec, i)
}

/// One field value through the emptiness-guarded encode.
#[verifier::loop_isolation(false)]
fn encode_field_value<S: TransformService>(svc: &S, v: &FieldValue) -> (r: Option<FieldValue>)
    ensures
        r is Some <==> spec_encode_value_ok(svc, v@),
        r matches Some(out) ==> out@ == spec_encode_value(svc, v@),
{
    match v {
        FieldValue::Scalar(s) => {
            if s.as_str().is_empty() {
                Some(FieldValue::Scalar(s.clone()))
            } else {
                match svc.encode_value(s.as_str()) {
                    Some(t) => Some(FieldValue::Scalar(t)),
                    None => None,
                }
            }
        },
        FieldValue::Optional(o) => match o {
            Some(s) => {
                if s.as_str().is_empty() {
                    Some(FieldValue::Optional(Some(s.clone())))
                } else {
                    match svc.encode_value(s.as_str()) {
                        Some(t) => Some(FieldValue::Optional(Some(t))),
                        None => None,
                    }
                }
            },
            None => Some(FieldValue::Optional(None)),
        },
        FieldValue::Sequence(vs) => {
            let ghost es = vs@.map_values(|s: String| s@);
            let mut out: Vec<String> = Vec::new();
            let mut j: usize = 0;
            while j < vs.len()
                invariant
                    0 <= j <= es.len(),
                    out@.len() == j,
                    forall|k: int| 0 <= k < j ==> #[trigger] out@[k]@ == spec_enc_str(svc, es[k]),
                    forall|k: int| 0 <= k < j ==> (#[trigger] es[k]).len() == 0 || svc.enc_ok(es[k]),
                decreases es.len() - j,
            {
                let s = &vs[j];
                if s.as_str().is_empty() {
                    out.push(s.clone());
                } else {
                    match svc.encode_value(s.as_str()) {
                        Some(t) => out.push(t),
                        None => {
                            proof {
                                assert(es[j as int] == vs@[j as int]@);
                                assert((es[j as int]).len() != 0 && !svc.enc_ok(es[j as int]));
                                assert(!spec_encode_value_ok(svc, v@));
                            }
                            return None;
                        },
                    }
                }
                j = j + 1;
            }
            proof {
                assert(out@.map_values(|s: String| s@) =~= es.map_values(
                    |e: Seq<char>| spec_enc_str(svc, e),
                ));
            }
            Some(FieldValue::Sequence(out))
        },
    }
}

/// One field value through the emptiness-guarded decode.
#[verifier::loop_isolation(false)]
fn decode_field_value<S: TransformService>(svc: &S, v: &FieldValue) -> (r: Option<FieldValue>)
    ensures
        r is Some <==> spec_decode_value_ok(svc, v@),
        r matches Some(out) ==> out@ == spec_decode_value(svc, v@),
{
    match v {
        FieldValue::Scalar(s) => {
            if s.as_str().is_empty() {
                Some(FieldValue::Scalar(s.clone()))
            } else {
                match svc.decode_value(s.as_str()) {
                    Some(t) => Some(FieldValue::Scalar(t)),
                    None => None,
                }
            }
        },
        FieldValue::Optional(o) => match o {
            Some(s) => {
                if s.as_str().is_empty() {
                    Some(FieldValue::Optional(Some(s.clone())))
                } else {
                    match svc.decode_value(s.as_str()) {
                        Some(t) => Some(FieldValue::Optional(Some(t))),
                        None => None,
                    }
                }
            },
            None => Some(FieldValue::Optional(None)),
        },
        FieldValue::Sequence(vs) => {
            let ghost es = vs@.map_values(|s: String| s@);
            let mut out: Vec<String> = Vec::new();
            let mut j: usize = 0;
            while j < vs.len()
                invariant
                    0 <= j <= es.len(),
                    out@.len() == j,
                    forall|k: int| 0 <= k < j ==> #[trigger] out@[k]@ == spec_dec_str(svc, es[k]),
                    forall|k: int| 0 <= k < j ==> (#[trigger] es[k]).len() == 0 || svc.dec_ok(es[k]),
                decreases es.len() - j,
            {
                let s = &vs[j];
                if s.as_str().is_empty() {
                    out.push(s.clone());
                } else {
                    match svc.decode_value(s.as_str()) {
                        Some(t) => out.push(t),
                        None => {
                            proof {
                                assert(es[j as int] == vs@[j as int]@);
                                assert((es[j as int]).len() != 0 && !svc.dec_ok(es[j as int]));
                                assert(!spec_decode_value_ok(svc, v@));
                            }
                            return None;
                        },
                    }
                }
                j = j + 1;
            }
            proof {
                assert(out@.map_values(|s: String| s@) =~= es.map_values(
                    |e: Seq<char>| spec_dec_str(svc, e),
                ));
            }
            Some(FieldValue::Sequence(out))
        },
    }
}

/// The encode operation: a new record in which every field appears exactly
/// once — passed through the service's encode capability where `encrypt` is
/// set, derived with the digest function where the digest rule applies, and
/// copied unchanged otherwise. Succeeds if and only if every service
/// invocation the plan requires succeeds; a failure names the first field
/// whose invocation failed. The input record is left unmodified.
#[verifier::loop_isolation(false)]
pub fn encode_record<S: TransformService>(
    schema: &RecordSchema,
    record: &Record,
    svc: &S,
) -> (r: Result<Record, TransformError>)
    requires
        record_matches(schema@, record@),
    ensures
        r is Ok <==> spec_encode_record_ok(svc, schema@, record@),
        r matches Ok(out) ==> out@ == spec_encode_record(svc, schema@, record@),
        r matches Err(e) ==> exists|i: int|
            {
                &&& 0 <= i < record@.len()
                &&& !spec_encode_field_ok(svc, schema@, record@, i)
                &&& forall|k: int| 0 <= k < i ==> spec_encode_field_ok(svc, schema@, record@, k)
                &&& e.field@ == schema@.fields[i].name
            },
{
    let plan = synthesize_plan(schema);
    let n = record.values.len();
    proof {
        assert(record@.len() == n);
        assert(schema@.fields.len() == n);
    }
    let mut values: Vec<FieldValue> = Vec::new();
    let mut i: usize = 0;
    while i < n
        invariant
            0 <= i <= n,
            values@.len() == i,
            forall|k: int|
                0 <= k < i ==> #[trigger] values@[k]@ == spec_encode_field(svc, schema@, record@, k),
            forall|k: int| 0 <= k < i ==> spec_encode_field_ok(svc, schema@, record@, k),
        decreases n - i,
    {
        let v = &record.values[i];
        proof {
            assert(v@ == record@[i as int]);
        }
        let fv: FieldValue = match plan[i].encode {
            EncodeAction::Copy => {
                proof {
                    assert(spec_encode_action(schema@, i as int) == EncodeAction::Copy);
                }
                copy_value(v)
            },
            EncodeAction::Encrypt => {
                proof {
                    assert(spec_encode_action(schema@, i as int) == EncodeAction::Encrypt);
                    assert(schema@.fields[i as int].encrypt);
                }
                match encode_field_value(svc, v) {
                    Some(out) => out,
                    None => {
                        let e = TransformError { field: schema.fields[i].name.clone() };
                        proof {
                            let fi: int = i as int;
                            assert(!spec_encode_field_ok(svc, schema@, record@, fi));
                            assert(e.field@ == schema@.fields[fi].name);
                            assert(exists|i2: int|
                                {
                                    &&& 0 <= i2 < record@.len()
                                    &&& !spec_encode_field_ok(svc, schema@, record@, i2)
                                    &&& forall|k: int|
                                        0 <= k < i2 ==> spec_encode_field_ok(
                                            svc,
                                            schema@,
                                            record@,
                                            k,
                                        )
                                    &&& e.field@ == schema@.fields[i2].name
                                }) by {
                                assert({
                                    &&& 0 <= fi < record@.len()
                                    &&& !spec_encode_field_ok(svc, schema@, record@, fi)
                                    &&& forall|k: int|
                                        0 <= k < fi ==> spec_encode_field_ok(
                                            svc,
                                            schema@,
                                            record@,
                                            k,
                                        )
                                    &&& e.field@ == schema@.fields[fi].name
                                });
                            }
                        }
                        return Err(e);
                    },
                }
            },
            EncodeAction::Digest { base } => {
                proof {
                    assert(spec_encode_action(schema@, i as int) == EncodeAction::Digest { base });
                    assert(spec_digest_applies(schema@, i as int));
                    lemma_find_from(
                        schema@.fields,
                        crate::text::spec_digest_base(schema@.fields[i as int].name),
                        0,
                    );
                    assert(0 <= spec_base_index(schema@, i as int) < n);
                    assert(base as int == spec_base_index(schema@, i as int));
                    assert(schema@.fields[base as int].shape == Shape::Scalar);
                    assert(value_has_shape(record@[base as int], Shape::Scalar));
                    assert(record.values@[base as int]@ == record@[base as int]);
                }
                if let FieldValue::Scalar(bs) = &record.values[base] {
                    if bs.as_str().is_empty() {
                        copy_value(v)
                    } else {
                        FieldValue::Scalar(svc.digest_value(bs.as_str()))
                    }
                } else {
                    proof {
                        assert(false);
                    }
                    unreached()
                }
            },
        };
        proof {
            assert(fv@ == spec_encode_field(svc, schema@, record@, i as int));
        }
        values.push(fv);
        i = i + 1;
    }
    let out = Record { values };
    proof {
        assert(out@ =~= spec_encode_record(svc, schema@, record@));
    }
    Ok(out)
}

/// The decode operation: a new record in which every field appears exactly
/// once — passed through the service's decode capability where `decrypt` is
/// set and copied unchanged otherwise. Digest fields are not reconstructed.
/// Succeeds if and only if every service invocation the plan requires
/// succeeds; a failure names the first field whose invocation failed. The
/// input record is left unmodified.
#[verifier::loop_isolation(false)]
pub fn decode_record<S: TransformService>(
    schema: &RecordSchema,
    record: &Record,
    svc: &S,
) -> (r: Result<Record, TransformError>)
    requires
        record_matches(schema@, record@),
    ensures
        r is Ok <==> spec_decode_record_ok(svc, schema@, record@),
        r matches Ok(out) ==> out@ == spec_decode_record(svc, schema@, record@),
        r matches Err(e) ==> exists|i: int|
            {
                &&& 0 <= i < record@.len()
                &&& !spec_decode_field_ok(svc, schema@, record@, i)
                &&& forall|k: int| 0 <= k < i ==> spec_decode_field_ok(svc, schema@, record@, k)
                &&& e.field@ == schema@.fields[i].name
            },
{
    let plan = synthesize_plan(schema);
    let n = record.values.len();
    proof {
        assert(record@.len() == n);
        assert(schema@.fields.len() == n);
    }
    let mut values: Vec<FieldValue> = Vec::new();
    let mut i: usize = 0;
    while i < n
        invariant
            0 <= i <= n,
            values@.len() == i,
            forall|k: int|
                0 <= k < i ==> #[trigger] values@[k]@ == spec_decode_field(svc, schema@, record@, k),
            forall|k: int| 0 <= k < i ==> spec_decode_field_ok(svc, schema@, record@, k),
        decreases n - i,
    {
        let v = &record.values[i];
        proof {
            assert(v@ == record@[i as int]);
        }
        let fv: FieldValue = match plan[i].decode {
            DecodeAction::Copy => {
                proof {
                    assert(spec_decode_action(schema@, i as int) == DecodeAction::Copy);
                }
                copy_value(v)
            },
            DecodeAction::Decrypt => {
                proof {
                    assert(spec_decode_action(schema@, i as int) == DecodeAction::Decrypt);
                    assert(schema@.fields[i as int].decrypt);
                }
                match decode_field_value(svc, v) {
                    Some(out) => out,
                    None => {
                        let e = TransformError { field: schema.fields[i].name.clone() };
                        proof {
                            let fi: int = i as int;
                            assert(!spec_decode_field_ok(svc, schema@, record@, fi));
                            assert(exists|i2: int|
                                {
                                    &&& 0 <= i2 < record@.len()
                                    &&& !spec_decode_field_ok(svc, schema@, record@, i2)
                                    &&& forall|k: int|
                                        0 <= k < i2 ==> spec_decode_field_ok(
                                            svc,
                                            schema@,
                                            record@,
                                            k,
                                        )
                                    &&& e.field@ == schema@.fields[i2].name
                                }) by {
                                assert({
                                    &&& 0 <= fi < record@.len()
                                    &&& !spec_decode_field_ok(svc, schema@, record@, fi)
                                    &&& forall|k: int|
                                        0 <= k < fi ==> spec_decode_field_ok(
                                            svc,
                                            schema@,
                                            record@,
                                            k,
                                        )
                                    &&& e.field@ == schema@.fields[fi].name
                                });
                            }
                        }
                        return Err(e);
                    },
                }
            },
        };
        proof {
            assert(fv@ == spec_decode_field(svc, schema@, record@, i as int));
        }
        values.push(fv);
        i = i + 1;
    }
    let out = Record { values };
    proof {
        assert(out@ =~= spec_decode_record(svc, schema@, record@));
    }
    Ok(out)
}

} // verus!

use encryptable::schema::{extract_schema, RawField, RawRecord, RecordSchema};
use encryptable::service::MarkerService;
use encryptable::transform::{decode_record, encode_record, TransformService};
use encryptable::value::{FieldValue, Record};

fn one_field(name: &str, outer_type: &str, options: &[&str], record_options: &[&str]) -> RecordSchema {
    many_fields(vec![(name, outer_type, options)], record_options)
}

fn many_fields(fields: Vec<(&str, &str, &[&str])>, record_options: &[&str]) -> RecordSchema {
    let raw = RawRecord {
        name: String::from("TestData"),
        options: record_options.iter().map(|o| String::from(*o)).collect(),
        fields: fields
            .into_iter()
            .map(|(name, outer_type, options)| RawField {
                name: String::from(name),
                outer_type: String::from(outer_type),
                options: options.iter().map(|o| String::from(*o)).collect(),
            })
            .collect(),
    };
    extract_schema(&raw).unwrap()
}

fn scalar(s: &str) -> FieldValue {
    FieldValue::Scalar(String::from(s))
}

#[test]
fn service_is_a_reversible_placeholder() {
    let svc = MarkerService;
    assert_eq!(svc.encode_value("abc").unwrap(), "#abc");
    assert_eq!(svc.decode_value("#abc").unwrap(), "abc");
    assert!(svc.decode_value("abc").is_none());
    assert!(svc.decode_value("").is_none());
    assert_eq!(svc.digest_value("abc"), "*abc");
    assert_eq!(svc.digest_value("abc"), svc.digest_value("abc"));
}

#[test]
fn digest_is_derived_from_the_base_field() {
    let schema = many_fields(
        vec![
            ("name", "String", &["encrypt", "decrypt"][..]),
            ("name_digest", "String", &[][..]),
        ],
        &["service", "digest"],
    );
    let payload = Record { values: vec![scalar("Jake"), scalar("")] };
    let encoded = encode_record(&schema, &payload, &MarkerService).unwrap();
    assert_eq!(encoded.values[0], scalar("#Jake"));
    assert_eq!(encoded.values[1], scalar("*Jake"));
    let decoded = decode_record(&schema, &encoded, &MarkerService).unwrap();
    assert_eq!(decoded.values[0], scalar("Jake"));
    assert_eq!(decoded.values[1], scalar("*Jake"));
}

#[test]
fn digest_field_is_copied_when_the_base_is_empty() {
    let schema = many_fields(
        vec![
            ("name", "String", &["encrypt", "decrypt"][..]),
            ("name_digest", "String", &[][..]),
        ],
        &["service", "digest"],
    );
    let payload = Record { values: vec![scalar(""), scalar("old")] };
    let encoded = encode_record(&schema, &payload, &MarkerService).unwrap();
    assert_eq!(encoded.values[0], scalar(""));
    assert_eq!(encoded.values[1], scalar("old"));
}

#[test]
fn digest_field_without_a_base_is_copied() {
    let schema = one_field("alias_digest", "String", &[], &["service", "digest"]);
    let payload = Record { values: vec![scalar("keep")] };
    let encoded = encode_record(&schema, &payload, &MarkerService).unwrap();
    assert_eq!(encoded.values[0], scalar("keep"));
}

#[test]
fn digest_rule_needs_the_digest_option() {
    let schema = many_fields(
        vec![
            ("name", "String", &[][..]),
            ("name_digest", "String", &[][..]),
        ],
        &["service"],
    );
    let payload = Record { values: vec![scalar("Jake"), scalar("old")] };
    let encoded = encode_record(&schema, &payload, &MarkerService).unwrap();
    assert_eq!(encoded.values[1], scalar("old"));
}

#[test]
fn explicit_encrypt_wins_over_the_digest_rule() {
    let schema = many_fields(
        vec![
            ("name", "String", &[][..]),
            ("name_digest", "String", &["encrypt"][..]),
        ],
        &["service", "digest"],
    );
    let payload = Record { values: vec![scalar("Jake"), scalar("zz")] };
    let encoded = encode_record(&schema, &payload, &MarkerService).unwrap();
    assert_eq!(encoded.values[0], scalar("Jake"));
    assert_eq!(encoded.values[1], scalar("#zz"));
}

#[test]
fn digest_rule_is_scalar_only() {
    let schema = many_fields(
        vec![
            ("sessions", "Vec", &[][..]),
            ("sessions_digest", "String", &[][..]),
        ],
        &["service", "digest"],
    );
    let payload = Record {
        values: vec![
            FieldValue::Sequence(vec![String::from("dances")]),
            scalar("old"),
        ],
    };
    let encoded = encode_record(&schema, &payload, &MarkerService).unwrap();
    assert_eq!(encoded.values[1], scalar("old"));
}

#[test]
fn copy_through_field_is_untouched() {
    let schema = one_field("note", "String", &[], &["service"]);
    let payload = Record { values: vec![scalar("plain")] };
    let encoded = encode_record(&schema, &payload, &MarkerService).unwrap();
    assert_eq!(encoded.values[0], scalar("plain"));
    let decoded = decode_record(&schema, &encoded, &MarkerService).unwrap();
    assert_eq!(decoded.values[0], scalar("plain"));
}

#[test]
fn optional_absent_is_preserved() {
    let schema = one_field("name", "Option", &["encrypt", "decrypt"], &["service"]);
    let payload = Record { values: vec![FieldValue::Optional(None)] };
    let encoded = encode_record(&schema, &payload, &MarkerService).unwrap();
    assert_eq!(encoded.values[0], FieldValue::Optional(None));
    let decoded = decode_record(&schema, &encoded, &MarkerService).unwrap();
    assert_eq!(decoded.values[0], FieldValue::Optional(None));
}

#[test]
fn optional_present_but_empty_is_copied() {
    let schema = one_field("name", "Option", &["encrypt", "decrypt"], &["service"]);
    let payload = Record { values: vec![FieldValue::Optional(Some(String::from("")))] };
    let encoded = encode_record(&schema, &payload, &MarkerService).unwrap();
    assert_eq!(encoded.values[0], FieldValue::Optional(Some(String::from(""))));
    let decoded = decode_record(&schema, &encoded, &MarkerService).unwrap();
    assert_eq!(decoded.values[0], FieldValue::Optional(Some(String::from(""))));
}

#[test]
fn empty_sequence_is_untouched() {
    let schema = one_field("sessions", "Vec", &["encrypt", "decrypt"], &["service"]);
    let payload = Record { values: vec![FieldValue::Sequence(vec![])] };
    let encoded = encode_record(&schema, &payload, &MarkerService).unwrap();
    assert_eq!(encoded.values[0], FieldValue::Sequence(vec![]));
    let decoded = decode_record(&schema, &encoded, &MarkerService).unwrap();
    assert_eq!(decoded.values[0], FieldValue::Sequence(vec![]));
}

#[test]
fn empty_sequence_elements_are_skipped() {
    let schema = one_field("sessions", "Vec", &["encrypt", "decrypt"], &["service"]);
    let payload = Record {
        values: vec![FieldValue::Sequence(vec![String::from(""), String::from("x")])],
    };
    let encoded = encode_record(&schema, &payload, &MarkerService).unwrap();
    assert_eq!(
        encoded.values[0],
        FieldValue::Sequence(vec![String::from(""), String::from("#x")])
    );
    let decoded = decode_record(&schema, &encoded, &MarkerService).unwrap();
    assert_eq!(decoded.values[0], payload.values[0]);
}

#[test]
fn encrypt_without_decrypt_stays_encoded() {
    let schema = one_field("name", "String", &["encrypt"], &["service"]);
    let payload = Record { values: vec![scalar("abc")] };
    let encoded = encode_record(&schema, &payload, &MarkerService).unwrap();
    assert_eq!(encoded.values[0], scalar("#abc"));
    let decoded = decode_record(&schema, &encoded, &MarkerService).unwrap();
    assert_eq!(decoded.values[0], scalar("#abc"));
}

#[test]
fn decode_failure_names_the_field() {
    let schema = many_fields(
        vec![
            ("note", "String", &[][..]),
            ("name", "String", &["decrypt"][..]),
        ],
        &["service"],
    );
    let payload = Record { values: vec![scalar("keep"), scalar("unmarked")] };
    let err = decode_record(&schema, &payload, &MarkerService).unwrap_err();
    assert_eq!(err.field, "name");
}

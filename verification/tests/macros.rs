use encryptable::schema::{extract_schema, RawField, RawRecord, RecordSchema};
use encryptable::service::MarkerService;
use encryptable::transform::{decode_record, encode_record};
use encryptable::value::{FieldValue, Record};

fn raw_field(name: &str, outer_type: &str, options: &[&str]) -> RawField {
    RawField {
        name: String::from(name),
        outer_type: String::from(outer_type),
        options: options.iter().map(|o| String::from(*o)).collect(),
    }
}

fn schema_of(fields: Vec<RawField>) -> RecordSchema {
    let raw = RawRecord {
        name: String::from("TestData"),
        options: vec![String::from("service"), String::from("digest")],
        fields,
    };
    match extract_schema(&raw) {
        Ok(schema) => schema,
        Err(e) => panic!("extraction rejected a valid declaration: {:?}", e),
    }
}

fn as_seq(v: &FieldValue) -> &Vec<String> {
    match v {
        FieldValue::Sequence(vs) => vs,
        _ => panic!("expected a sequence value"),
    }
}

fn as_opt(v: &FieldValue) -> &Option<String> {
    match v {
        FieldValue::Optional(o) => o,
        _ => panic!("expected an optional value"),
    }
}

#[test]
fn test_encryptable_derive() {
    let schema = schema_of(vec![
        raw_field("name", "String", &["encrypt", "decrypt"]),
        raw_field("name_digest", "String", &[]),
    ]);
    let payload = Record {
        values: vec![
            FieldValue::Scalar(String::from("Jake")),
            FieldValue::Scalar(String::from("")),
        ],
    };
    let encrypted = encode_record(&schema, &payload, &MarkerService).unwrap();

    assert_ne!(encrypted.values[0], payload.values[0]);
    assert_ne!(encrypted.values[1], payload.values[1]);

    let decrypted = decode_record(&schema, &encrypted, &MarkerService).unwrap();

    assert_eq!(decrypted.values[0], payload.values[0]);
}

#[test]
fn test_encryptable_derive_empty_string() {
    let schema = schema_of(vec![
        raw_field("name", "String", &["encrypt", "decrypt"]),
        raw_field("name_digest", "String", &[]),
    ]);
    let payload = Record {
        values: vec![
            FieldValue::Scalar(String::from("")),
            FieldValue::Scalar(String::from("")),
        ],
    };
    let encrypted = encode_record(&schema, &payload, &MarkerService).unwrap();

    assert_eq!(encrypted.values[0], payload.values[0]);
    assert_eq!(encrypted.values[1], payload.values[1]);

    let decrypted = decode_record(&schema, &encrypted, &MarkerService).unwrap();

    assert_eq!(decrypted.values[0], payload.values[0]);
}

#[test]
fn test_encryptable_derive_vector() {
    let schema = schema_of(vec![raw_field("sessions", "Vec", &["encrypt", "decrypt"])]);
    let payload = Record {
        values: vec![FieldValue::Sequence(vec![
            String::from("dances"),
            String::from("shopping"),
        ])],
    };
    let encrypted = encode_record(&schema, &payload, &MarkerService).unwrap();

    assert_eq!(as_seq(&encrypted.values[0]).len(), as_seq(&payload.values[0]).len());
    assert_ne!(as_seq(&encrypted.values[0])[0], as_seq(&payload.values[0])[0]);

    let decrypted = decode_record(&schema, &encrypted, &MarkerService).unwrap();

    assert_eq!(as_seq(&decrypted.values[0]).len(), as_seq(&payload.values[0]).len());
    assert_eq!(as_seq(&decrypted.values[0])[0], as_seq(&payload.values[0])[0]);
}

#[test]
fn test_encryptable_derive_optional() {
    let schema = schema_of(vec![raw_field("name", "Option", &["encrypt", "decrypt"])]);
    let payload = Record {
        values: vec![FieldValue::Optional(Some(String::from("dances")))],
    };
    let encrypted = encode_record(&schema, &payload, &MarkerService).unwrap();

    assert!(as_opt(&encrypted.values[0]).is_some());
    assert_ne!(
        as_opt(&encrypted.values[0]).as_ref().unwrap(),
        as_opt(&payload.values[0]).as_ref().unwrap()
    );

    let decrypted = decode_record(&schema, &encrypted, &MarkerService).unwrap();

    assert!(as_opt(&decrypted.values[0]).is_some());
    assert_eq!(
        as_opt(&decrypted.values[0]).as_ref().unwrap(),
        as_opt(&payload.values[0]).as_ref().unwrap()
    );
}

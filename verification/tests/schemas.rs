use encryptable::schema::{extract_schema, RawField, RawRecord, SchemaError};
use encryptable::shape::{classify, Shape};

fn field_decl(name: &str, outer_type: &str, options: &[&str]) -> RawField {
    RawField {
        name: String::from(name),
        outer_type: String::from(outer_type),
        options: options.iter().map(|o| String::from(*o)).collect(),
    }
}

fn record_decl(options: &[&str], fields: Vec<RawField>) -> RawRecord {
    RawRecord {
        name: String::from("TestData"),
        options: options.iter().map(|o| String::from(*o)).collect(),
        fields,
    }
}

#[test]
fn classify_recognizes_the_standard_wrappers() {
    assert_eq!(classify("Option"), Shape::Optional);
    assert_eq!(classify("Vec"), Shape::Sequence);
    assert_eq!(classify("String"), Shape::Scalar);
    assert_eq!(classify("HashMap"), Shape::Scalar);
    assert_eq!(classify(""), Shape::Scalar);
}

#[test]
fn extraction_reads_flags_and_shapes() {
    let raw = record_decl(
        &["service"],
        vec![
            field_decl("name", "String", &["encrypt"]),
            field_decl("tags", "Vec", &["decrypt"]),
            field_decl("note", "Option", &[]),
        ],
    );
    let schema = extract_schema(&raw).unwrap();
    assert!(!schema.has_digest);
    assert_eq!(schema.fields.len(), 3);
    assert_eq!(schema.fields[0].name, "name");
    assert!(schema.fields[0].encrypt);
    assert!(!schema.fields[0].decrypt);
    assert_eq!(schema.fields[1].shape, Shape::Sequence);
    assert!(!schema.fields[1].encrypt);
    assert!(schema.fields[1].decrypt);
    assert_eq!(schema.fields[2].shape, Shape::Optional);
}

#[test]
fn extraction_records_the_digest_option() {
    let raw = record_decl(&["service", "digest"], vec![]);
    let schema = extract_schema(&raw).unwrap();
    assert!(schema.has_digest);
    assert_eq!(schema.fields.len(), 0);
}

#[test]
fn missing_service_is_rejected() {
    let raw = record_decl(&["digest"], vec![field_decl("name", "String", &[])]);
    let err = extract_schema(&raw).unwrap_err();
    assert_eq!(
        err,
        SchemaError::MissingService { record: String::from("TestData") }
    );
}

#[test]
fn unknown_record_option_is_rejected() {
    let raw = record_decl(&["service", "keyring"], vec![]);
    let err = extract_schema(&raw).unwrap_err();
    assert_eq!(
        err,
        SchemaError::UnknownRecordOption {
            record: String::from("TestData"),
            option: String::from("keyring"),
        }
    );
}

#[test]
fn unknown_field_option_is_rejected() {
    let raw = record_decl(
        &["service"],
        vec![
            field_decl("name", "String", &["encrypt"]),
            field_decl("note", "String", &["shred"]),
        ],
    );
    let err = extract_schema(&raw).unwrap_err();
    assert_eq!(
        err,
        SchemaError::UnknownFieldOption {
            field: String::from("note"),
            option: String::from("shred"),
        }
    );
}

#[test]
fn duplicate_field_is_rejected() {
    let raw = record_decl(
        &["service"],
        vec![
            field_decl("name", "String", &[]),
            field_decl("note", "String", &[]),
            field_decl("name", "Option", &[]),
        ],
    );
    let err = extract_schema(&raw).unwrap_err();
    assert_eq!(err, SchemaError::DuplicateField { field: String::from("name") });
}

//! Metadata extraction: from a record declaration's annotation payloads to a
//! validated `RecordSchema`.

use vstd::prelude::*;
use crate::shape::{classify, spec_classify, Shape};
use crate::text::str_eq;

verus! {

/// One field of a record declaration, as the host language describes it: the
/// field's name, the name of its declared type's outer constructor, and the
/// option names of its annotation payload.
pub struct RawField {
    pub name: String,
    pub outer_type: String,
    pub options: Vec<String>,
}

/// The model of a raw field.
#[verifier::ext_equal]
pub struct RawFieldV {
    pub name: Seq<char>,
    pub outer_type: Seq<char>,
    pub options: Seq<Seq<char>>,
}

impl View for RawField {
    type V = RawFieldV;

    open spec fn view(&self) -> RawFieldV {
        RawFieldV {
            name: self.name@,
            outer_type: self.outer_type@,
            options: self.options@.map_values(|s: String| s@),
        }
    }
}

/// A record declaration: its name, the option names of its record-level
/// annotation payload, and its fields in declaration order.
pub struct RawRecord {
    pub name: String,
    pub options: Vec<String>,
    pub fields: Vec<RawField>,
}

/// The model of a raw record declaration.
#[verifier::ext_equal]
pub struct RawRecordV {
    pub name: Seq<char>,
    pub options: Seq<Seq<char>>,
    pub fields: Seq<RawFieldV>,
}

impl View for RawRecord {
    type V = RawRecordV;

    open spec fn view(&self) -> RawRecordV {
        RawRecordV {
            name: self.name@,
            options: self.options@.map_values(|s: String| s@),
            fields: self.fields@.map_values(|f: RawField| f@),
        }
    }
}

/// One field of a validated schema: its name, its structural shape, and its
/// transform flags. The descriptor's identity is its field name.
#[derive(Debug)]
pub struct FieldDescriptor {
    pub name: String,
    pub shape: Shape,
    pub encrypt: bool,
    pub decrypt: bool,
}

/// The model of a field descriptor.
#[verifier::ext_equal]
pub struct FieldDescV {
    pub name: Seq<char>,
    pub shape: Shape,
    pub encrypt: bool,
    pub decrypt: bool,
}

impl View for FieldDescriptor {
    type V = FieldDescV;

    open spec fn view(&self) -> FieldDescV {
        FieldDescV {
            name: self.name@,
            shape: self.shape,
            encrypt: self.encrypt,
            decrypt: self.decrypt,
        }
    }
}

/// The record-level configuration: whether a digest function is configured,
/// and one descriptor per field, in declaration order. The transformation
/// service itself (and the digest function, when configured) is supplied to
/// the transform operations as a value; the schema records only the shape of
/// the configuration.
#[derive(Debug)]
pub struct RecordSchema {
    pub has_digest: bool,
    pub fields: Vec<FieldDescriptor>,
}

/// The model of a record schema.
#[verifier::ext_equal]
pub struct SchemaV {
    pub has_digest: bool,
    pub fields: Seq<FieldDescV>,
}

impl View for RecordSchema {
    type V = SchemaV;

    open spec fn view(&self) -> SchemaV {
        SchemaV {
            has_digest: self.has_digest,
            fields: self.fields@.map_values(|f: FieldDescriptor| f@),
        }
    }
}

/// Field names are unique within a schema, an invariant inherited from the
/// host record type and re-checked during extraction.
pub open spec fn schema_wf(schema: SchemaV) -> bool {
    forall|i: int, j: int|
        0 <= i < j < schema.fields.len() ==> schema.fields[i].name != schema.fields[j].name
}

/// A generation-time failure: the record declaration's annotations cannot be
/// turned into a schema. It aborts generation for the whole record and names
/// the offending record or field and the missing or invalid option.
#[derive(Debug, PartialEq, Eq)]
pub enum SchemaError {
    /// The record-level annotation does not name the required transformation
    /// service.
    MissingService { record: String },
    /// The record-level annotation holds an option outside the vocabulary.
    UnknownRecordOption { record: String, option: String },
    /// A field's annotation holds an option outside the vocabulary.
    UnknownFieldOption { field: String, option: String },
    /// Two fields share a name.
    DuplicateField { field: String },
}

/// The model of a schema error.
#[verifier::ext_equal]
pub enum SchemaErrorV {
    MissingService { record: Seq<char> },
    UnknownRecordOption { record: Seq<char>, option: Seq<char> },
    UnknownFieldOption { field: Seq<char>, option: Seq<char> },
    DuplicateField { field: Seq<char> },
}

impl View for SchemaError {
    type V = SchemaErrorV;

    open spec fn view(&self) -> SchemaErrorV {
        match self {
            SchemaError::MissingService { record } => SchemaErrorV::MissingService {
                record: record@,
            },
            SchemaError::UnknownRecordOption { record, option } => SchemaErrorV::UnknownRecordOption {
                record: record@,
                option: option@,
            },
            SchemaError::UnknownFieldOption { field, option } => SchemaErrorV::UnknownFieldOption {
                field: field@,
                option: option@,
            },
            SchemaError::DuplicateField { field } => SchemaErrorV::DuplicateField {
                field: field@,
            },
        }
    }
}

/// Whether an option list contains the given option name.
pub open spec fn spec_has_option(options: Seq<Seq<char>>, name: Seq<char>) -> bool {
    exists|k: int| 0 <= k < options.len() && options[k] == name
}

/// The record-level annotation vocabulary: `service` and `digest`.
pub open spec fn spec_record_option_ok(option: Seq<char>) -> bool {
    option == "service"@ || option == "digest"@
}

/// The field-level annotation vocabulary: `encrypt` and `decrypt`.
pub open spec fn spec_field_option_ok(option: Seq<char>) -> bool {
    option == "encrypt"@ || option == "decrypt"@
}

pub open spec fn spec_record_options_ok(options: Seq<Seq<char>>) -> bool {
    forall|k: int| 0 <= k < options.len() ==> spec_record_option_ok(#[trigger] options[k])
}

pub open spec fn spec_field_options_ok(options: Seq<Seq<char>>) -> bool {
    forall|k: int| 0 <= k < options.len() ==> spec_field_option_ok(#[trigger] options[k])
}

/// Field names of a raw declaration are pairwise distinct.
pub open spec fn spec_raw_names_unique(fields: Seq<RawFieldV>) -> bool {
    forall|i: int, j: int|
        0 <= i < j < fields.len() ==> fields[i].name != fields[j].name
}

/// Extraction succeeds exactly on these declarations.
pub open spec fn spec_extract_ok(raw: RawRecordV) -> bool {
    &&& spec_record_options_ok(raw.options)
    &&& spec_has_option(raw.options, "service"@)
    &&& forall|i: int|
        0 <= i < raw.fields.len() ==> spec_field_options_ok(#[trigger] raw.fields[i].options)
    &&& spec_raw_names_unique(raw.fields)
}

/// The descriptor extracted from one raw field.
pub open spec fn spec_extracted_field(f: RawFieldV) -> FieldDescV {
    FieldDescV {
        name: f.name,
        shape: spec_classify(f.outer_type),
        encrypt: spec_has_option(f.options, "encrypt"@),
        decrypt: spec_has_option(f.options, "decrypt"@),
    }
}

/// The schema extracted from a raw declaration.
pub open spec fn spec_extracted_schema(raw: RawRecordV) -> SchemaV {
    SchemaV {
        has_digest: spec_has_option(raw.options, "digest"@),
        fields: Seq::new(raw.fields.len(), |i: int| spec_extracted_field(raw.fields[i])),
    }
}

/// The exact error reported for a rejected declaration. Record-level options
/// are checked first, then the service requirement, then each field's options
/// in declaration order, then name uniqueness.
pub open spec fn spec_extract_err(raw: RawRecordV, e: SchemaErrorV) -> bool {
    if !spec_record_options_ok(raw.options) {
        exists|k: int|
            0 <= k < raw.options.len() && !spec_record_option_ok(raw.options[k]) && (forall|j: int|
                0 <= j < k ==> spec_record_option_ok(#[trigger] raw.options[j])) && e
                == (SchemaErrorV::UnknownRecordOption { record: raw.name, option: raw.options[k] })
    } else if !spec_has_option(raw.options, "service"@) {
        e == (SchemaErrorV::MissingService { record: raw.name })
    } else if exists|i: int|
        0 <= i < raw.fields.len() && !spec_field_options_ok(#[trigger] raw.fields[i].options) {
        exists|i: int, k: int|
            {
                &&& 0 <= i < raw.fields.len()
                &&& 0 <= k < raw.fields[i].options.len()
                &&& !spec_field_option_ok(raw.fields[i].options[k])
                &&& forall|j: int|
                    0 <= j < i ==> spec_field_options_ok(#[trigger] raw.fields[j].options)
                &&& forall|j: int|
                    0 <= j < k ==> spec_field_option_ok(#[trigger] raw.fields[i].options[j])
                &&& e == (SchemaErrorV::UnknownFieldOption {
                    field: raw.fields[i].name,
                    option: raw.fields[i].options[k],
                })
            }
    } else {
        exists|j: int|
            {
                &&& 0 <= j < raw.fields.len()
                &&& (exists|i: int| 0 <= i < j && raw.fields[i].name == raw.fields[j].name)
                &&& forall|j2: int, i2: int|
                    0 <= i2 < j2 < j ==> #[trigger] raw.fields[i2].name != #[trigger] raw.fields[j2].name
                &&& e == (SchemaErrorV::DuplicateField { field: raw.fields[j].name })
            }
    }
}

/// The names of the vocabulary's options are pairwise distinct.
proof fn lemma_vocab_distinct()
    ensures
        "service"@ != "digest"@,
        "encrypt"@ != "decrypt"@,
{
    reveal_strlit("service");
    reveal_strlit("digest");
    reveal_strlit("encrypt");
    reveal_strlit("decrypt");
    assert("service"@.len() == 7);
    assert("digest"@.len() == 6);
    assert("encrypt"@[0] == 'e');
    assert("decrypt"@[0] == 'd');
}

/// Scans a record-level option list; reports whether `service` and `digest`
/// are present, or the first option outside the vocabulary.
fn parse_record_options(raw: &RawRecord) -> (r: Result<(bool, bool), SchemaError>)
    ensures
        r matches Ok(flags) ==> spec_record_options_ok(raw@.options) && flags.0 == spec_has_option(
            raw@.options,
            "service"@,
        ) && flags.1 == spec_has_option(raw@.options, "digest"@),
        r matches Err(e) ==> !spec_record_options_ok(raw@.options) && exists|k: int|
            0 <= k < raw@.options.len() && !spec_record_option_ok(raw@.options[k]) && (forall|j: int|
                0 <= j < k ==> spec_record_option_ok(#[trigger] raw@.options[j])) && e@
                == (SchemaErrorV::UnknownRecordOption { record: raw@.name, option: raw@.options[k] }),
{
    let mut has_service = false;
    let mut has_digest = false;
    let mut i: usize = 0;
    let ghost opts = raw@.options;
    while i < raw.options.len()
        invariant
            opts == raw@.options,
            opts.len() == raw.options@.len(),
            forall|k: int| 0 <= k < opts.len() ==> opts[k] == raw.options@[k]@,
            0 <= i <= opts.len(),
            forall|j: int| 0 <= j < i ==> spec_record_option_ok(#[trigger] opts[j]),
            has_service == exists|k: int| 0 <= k < i && opts[k] == "service"@,
            has_digest == exists|k: int| 0 <= k < i && opts[k] == "digest"@,
        decreases opts.len() - i,
    {
        let o = &raw.options[i];
        if str_eq(o.as_str(), "service") {
            has_service = true;
            proof {
                lemma_vocab_distinct();
                assert(opts[i as int] == "service"@);
            }
        } else if str_eq(o.as_str(), "digest") {
            has_digest = true;
            proof {
                lemma_vocab_distinct();
                assert(opts[i as int] == "digest"@);
            }
        } else {
            let e = SchemaError::UnknownRecordOption {
                record: raw.name.clone(),
                option: o.clone(),
            };
            proof {
                let bad: int = i as int;
                assert(!spec_record_option_ok(opts[bad]));
                assert(e@ == (SchemaErrorV::UnknownRecordOption {
                    record: raw@.name,
                    option: opts[bad],
                }));
                assert(exists|k: int|
                    0 <= k < raw@.options.len() && !spec_record_option_ok(raw@.options[k]) && (
                    forall|j: int|
                        0 <= j < k ==> spec_record_option_ok(#[trigger] raw@.options[j])) && e@
                        == (SchemaErrorV::UnknownRecordOption {
                        record: raw@.name,
                        option: raw@.options[k],
                    })) by {
                    assert(0 <= bad < raw@.options.len() && !spec_record_option_ok(
                        raw@.options[bad],
                    ) && (forall|j: int|
                        0 <= j < bad ==> spec_record_option_ok(#[trigger] raw@.options[j])) && e@
                        == (SchemaErrorV::UnknownRecordOption {
                        record: raw@.name,
                        option: raw@.options[bad],
                    }));
                }
            }
            return Err(e);
        }
        i = i + 1;
    }
    Ok((has_service, has_digest))
}

/// Scans one field's option list; reports the `encrypt` and `decrypt` flags,
/// or the first option outside the vocabulary.
fn parse_field_options(field: &RawField) -> (r: Result<(bool, bool), SchemaError>)
    ensures
        r matches Ok(flags) ==> spec_field_options_ok(field@.options) && flags.0 == spec_has_option(
            field@.options,
            "encrypt"@,
        ) && flags.1 == spec_has_option(field@.options, "decrypt"@),
        r matches Err(e) ==> !spec_field_options_ok(field@.options) && exists|k: int|
            0 <= k < field@.options.len() && !spec_field_option_ok(field@.options[k]) && (forall|
                j: int,
            |
                0 <= j < k ==> spec_field_option_ok(#[trigger] field@.options[j])) && e@
                == (SchemaErrorV::UnknownFieldOption {
                field: field@.name,
                option: field@.options[k],
            }),
{
    let mut encrypt = false;
    let mut decrypt = false;
    let mut i: usize = 0;
    let ghost opts = field@.options;
    while i < field.options.len()
        invariant
            opts == field@.options,
            opts.len() == field.options@.len(),
            forall|k: int| 0 <= k < opts.len() ==> opts[k] == field.options@[k]@,
            0 <= i <= opts.len(),
            forall|j: int| 0 <= j < i ==> spec_field_option_ok(#[trigger] opts[j]),
            encrypt == exists|k: int| 0 <= k < i && opts[k] == "encrypt"@,
            decrypt == exists|k: int| 0 <= k < i && opts[k] == "decrypt"@,
        decreases opts.len() - i,
    {
        let o = &field.options[i];
        if str_eq(o.as_str(), "encrypt") {
            encrypt = true;
            proof {
                lemma_vocab_distinct();
                assert(opts[i as int] == "encrypt"@);
            }
        } else if str_eq(o.as_str(), "decrypt") {
            decrypt = true;
            proof {
                lemma_vocab_distinct();
                assert(opts[i as int] == "decrypt"@);
            }
        } else {
            let e = SchemaError::UnknownFieldOption {
                field: field.name.clone(),
                option: o.clone(),
            };
            proof {
                let bad: int = i as int;
                assert(!spec_field_option_ok(opts[bad]));
                assert(exists|k: int|
                    0 <= k < field@.options.len() && !spec_field_option_ok(field@.options[k]) && (
                    forall|j: int|
                        0 <= j < k ==> spec_field_option_ok(#[trigger] field@.options[j])) && e@
                        == (SchemaErrorV::UnknownFieldOption {
                        field: field@.name,
                        option: field@.options[k],
                    })) by {
                    assert(0 <= bad < field@.options.len() && !spec_field_option_ok(
                        field@.options[bad],
                    ) && (forall|j: int|
                        0 <= j < bad ==> spec_field_option_ok(#[trigger] field@.options[j])) && e@
                        == (SchemaErrorV::UnknownFieldOption {
                        field: field@.name,
                        option: field@.options[bad],
                    }));
                }
            }
            return Err(e);
        }
        i = i + 1;
    }
    Ok((encrypt, decrypt))
}

/// Builds the validated schema from a record declaration: record-level
/// options are parsed first (the `service` reference is required, `digest`
/// optional), then each field's flags, then field-name uniqueness is
/// re-checked. Extraction succeeds if and only if every annotation payload is
/// within the vocabulary, the service is named, and no field name repeats;
/// a rejected declaration is reported with the first offending option or the
/// first repeated field name.
#[verifier::loop_isolation(false)]
pub fn extract_schema(raw: &RawRecord) -> (r: Result<RecordSchema, SchemaError>)
    ensures
        r is Ok <==> spec_extract_ok(raw@),
        r matches Ok(schema) ==> schema@ == spec_extracted_schema(raw@) && schema_wf(schema@),
        r matches Err(e) ==> spec_extract_err(raw@, e@),
{
    let (has_service, has_digest) = match parse_record_options(raw) {
        Ok(flags) => flags,
        Err(e) => {
            return Err(e);
        },
    };
    if !has_service {
        return Err(SchemaError::MissingService { record: raw.name.clone() });
    }
    let ghost rawv = raw@;
    let mut fields: Vec<FieldDescriptor> = Vec::new();
    let mut i: usize = 0;
    while i < raw.fields.len()
        invariant
            rawv == raw@,
            rawv.fields.len() == raw.fields@.len(),
            forall|k: int| 0 <= k < rawv.fields.len() ==> rawv.fields[k] == raw.fields@[k]@,
            0 <= i <= rawv.fields.len(),
            fields@.len() == i,
            forall|k: int|
                0 <= k < i ==> #[trigger] fields@[k]@ == spec_extracted_field(rawv.fields[k]),
            forall|k: int|
                0 <= k < i ==> spec_field_options_ok(#[trigger] rawv.fields[k].options),
        decreases rawv.fields.len() - i,
    {
        let f = &raw.fields[i];
        let (encrypt, decrypt) = match parse_field_options(f) {
            Ok(flags) => flags,
            Err(e) => {
                proof {
                    let fi: int = i as int;
                    assert(f@ == rawv.fields[fi]);
                    assert(!spec_field_options_ok(rawv.fields[fi].options));
                    let bad = choose|k: int|
                        0 <= k < f@.options.len() && !spec_field_option_ok(f@.options[k]) && (
                        forall|j: int|
                            0 <= j < k ==> spec_field_option_ok(#[trigger] f@.options[j])) && e@
                            == (SchemaErrorV::UnknownFieldOption {
                            field: f@.name,
                            option: f@.options[k],
                        });
                    assert(exists|i2: int, k2: int|
                        {
                            &&& 0 <= i2 < rawv.fields.len()
                            &&& 0 <= k2 < rawv.fields[i2].options.len()
                            &&& !spec_field_option_ok(rawv.fields[i2].options[k2])
                            &&& forall|j: int|
                                0 <= j < i2 ==> spec_field_options_ok(
                                    #[trigger] rawv.fields[j].options,
                                )
                            &&& forall|j: int|
                                0 <= j < k2 ==> spec_field_option_ok(
                                    #[trigger] rawv.fields[i2].options[j],
                                )
                            &&& e@ == (SchemaErrorV::UnknownFieldOption {
                                field: rawv.fields[i2].name,
                                option: rawv.fields[i2].options[k2],
                            })
                        }) by {
                        assert({
                            &&& 0 <= fi < rawv.fields.len()
                            &&& 0 <= bad < rawv.fields[fi].options.len()
                            &&& !spec_field_option_ok(rawv.fields[fi].options[bad])
                            &&& forall|j: int|
                                0 <= j < fi ==> spec_field_options_ok(
                                    #[trigger] rawv.fields[j].options,
                                )
                            &&& forall|j: int|
                                0 <= j < bad ==> spec_field_option_ok(
                                    #[trigger] rawv.fields[fi].options[j],
                                )
                            &&& e@ == (SchemaErrorV::UnknownFieldOption {
                                field: rawv.fields[fi].name,
                                option: rawv.fields[fi].options[bad],
                            })
                        });
                    }
                }
                return Err(e);
            },
        };
        let shape = classify(f.outer_type.as_str());
        fields.push(
            FieldDescriptor { name: f.name.clone(), shape, encrypt, decrypt },
        );
        i = i + 1;
    }
    // Field names must be unique; report the first name that repeats.
    let mut j: usize = 1;
    while j < fields.len()
        invariant
            rawv == raw@,
            rawv.fields.len() == raw.fields@.len(),
            forall|k: int| 0 <= k < rawv.fields.len() ==> rawv.fields[k] == raw.fields@[k]@,
            fields@.len() == rawv.fields.len(),
            forall|k: int|
                0 <= k < fields@.len() ==> #[trigger] fields@[k]@ == spec_extracted_field(
                    rawv.fields[k],
                ),
            forall|k: int|
                0 <= k < fields@.len() ==> spec_field_options_ok(#[trigger] rawv.fields[k].options),
            1 <= j,
            forall|j2: int, i2: int|
                0 <= i2 < j2 < j && j2 < fields@.len() ==> #[trigger] rawv.fields[i2].name
                    != #[trigger] rawv.fields[j2].name,
        decreases fields@.len() - j,
    {
        let mut k: usize = 0;
        while k < j
            invariant
                rawv == raw@,
                fields@.len() == rawv.fields.len(),
                forall|m: int|
                    0 <= m < fields@.len() ==> #[trigger] fields@[m]@ == spec_extracted_field(
                        rawv.fields[m],
                    ),
                0 <= k <= j < fields@.len(),
                forall|m: int| 0 <= m < k ==> #[trigger] rawv.fields[m].name != rawv.fields[j as int].name,
            decreases j - k,
        {
            if str_eq(fields[k].name.as_str(), fields[j].name.as_str()) {
                let e = SchemaError::DuplicateField { field: fields[j].name.clone() };
                proof {
                    let ji: int = j as int;
                    let ki: int = k as int;
                    assert(fields@[ki]@.name == rawv.fields[ki].name);
                    assert(fields@[ji]@.name == rawv.fields[ji].name);
                    assert(rawv.fields[ki].name == rawv.fields[ji].name);
                    assert(!spec_raw_names_unique(rawv.fields));
                    assert(exists|j2: int|
                        {
                            &&& 0 <= j2 < rawv.fields.len()
                            &&& (exists|i2: int|
                                0 <= i2 < j2 && rawv.fields[i2].name == rawv.fields[j2].name)
                            &&& forall|j3: int, i3: int|
                                0 <= i3 < j3 < j2 ==> #[trigger] rawv.fields[i3].name
                                    != #[trigger] rawv.fields[j3].name
                            &&& e@ == (SchemaErrorV::DuplicateField {
                                field: rawv.fields[j2].name,
                            })
                        }) by {
                        assert(0 <= ki < ji && rawv.fields[ki].name == rawv.fields[ji].name);
                        assert({
                            &&& 0 <= ji < rawv.fields.len()
                            &&& (exists|i2: int|
                                0 <= i2 < ji && rawv.fields[i2].name == rawv.fields[ji].name)
                            &&& forall|j3: int, i3: int|
                                0 <= i3 < j3 < ji ==> #[trigger] rawv.fields[i3].name
                                    != #[trigger] rawv.fields[j3].name
                            &&& e@ == (SchemaErrorV::DuplicateField {
                                field: rawv.fields[ji].name,
                            })
                        });
                    }
                }
                return Err(e);
            }
            proof {
                assert(fields@[k as int]@.name == rawv.fields[k as int].name);
                assert(fields@[j as int]@.name == rawv.fields[j as int].name);
                assert(rawv.fields[k as int].name != rawv.fields[j as int].name);
            }
            k = k + 1;
        }
        j = j + 1;
    }
    let schema = RecordSchema { has_digest, fields };
    proof {
        assert(schema@.fields =~= spec_extracted_schema(rawv).fields);
        assert(schema@ =~= spec_extracted_schema(rawv));
        assert(schema_wf(schema@));
    }
    Ok(schema)
}

} // verus!

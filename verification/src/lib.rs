//! Attribute-driven field transformation, interpreted over a runtime schema.
//!
//! A record type is described by a [`schema::RecordSchema`]: one
//! [`schema::FieldDescriptor`] per field, carrying the field's name, its
//! structural [`shape::Shape`] and its `encrypt` / `decrypt` flags. From the
//! schema, [`plan::synthesize_plan`] derives a per-field transform plan, and
//! [`transform::encode_record`] / [`transform::decode_record`] apply it to a
//! [`value::Record`], passing selected values through a pluggable
//! [`transform::TransformService`] and copying the rest unchanged.

pub mod laws;
pub mod plan;
pub mod schema;
pub mod service;
pub mod shape;
pub mod text;
pub mod transform;
pub mod value;

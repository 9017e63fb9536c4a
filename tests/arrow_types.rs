use arrow_schema::{DataType, TimeUnit};
use parquet_writer::arrow::{arrow_type, create_arrow_schema, ArrowType};
use parquet_writer::schema::{BasicSchemaProperty, SchemaError};

fn prop(key: &str, typ: &str, format: Option<&str>, required: bool) -> BasicSchemaProperty {
    BasicSchemaProperty {
        key: key.to_string(),
        typ: typ.to_string(),
        format: format.map(|f| f.to_string()),
        required,
    }
}

#[test]
fn arrow_types_follow_type_and_format() {
    assert_eq!(arrow_type(&prop("a", "number", None, false)), Some(ArrowType::Float64));
    assert_eq!(arrow_type(&prop("a", "integer", None, false)), Some(ArrowType::Int64));
    assert_eq!(arrow_type(&prop("a", "boolean", None, false)), Some(ArrowType::Boolean));
    assert_eq!(arrow_type(&prop("a", "string", Some("date"), false)), Some(ArrowType::Date32));
    assert_eq!(arrow_type(&prop("a", "string", Some("date-time"), false)), Some(ArrowType::TimestampMillis));
    assert_eq!(arrow_type(&prop("a", "string", None, false)), Some(ArrowType::Utf8));
    assert_eq!(arrow_type(&prop("a", "object", None, false)), None);
}

#[test]
fn arrow_schema_has_one_field_per_property() {
    let schema = create_arrow_schema(&vec![
        prop("n", "number", None, true),
        prop("t", "string", Some("date-time"), false),
        prop("x", "string", None, false),
    ])
    .unwrap();
    let fields = schema.fields();
    assert_eq!(fields.len(), 3);
    assert_eq!(fields[0].name(), "n");
    assert_eq!(fields[0].data_type(), &DataType::Float64);
    assert!(!fields[0].is_nullable());
    assert_eq!(fields[1].name(), "t");
    assert_eq!(fields[1].data_type(), &DataType::Timestamp(TimeUnit::Millisecond, None));
    assert!(fields[1].is_nullable());
    assert_eq!(fields[2].data_type(), &DataType::Utf8);
}

#[test]
fn arrow_schema_refuses_unsupported_types() {
    let r = create_arrow_schema(&vec![prop("n", "number", None, true), prop("x", "whatever", None, false)]);
    assert_eq!(r.err(), Some(SchemaError::UnsupportedType { index: 1 }));
    let r = create_arrow_schema(&vec![prop("n", "number", None, true), prop("n", "boolean", None, false)]);
    assert_eq!(r.err(), Some(SchemaError::DuplicateKey { index: 1 }));
}

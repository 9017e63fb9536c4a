use parquet_writer::schema::{
    create_column_plans, plan_property, BasicSchemaProperty, ColumnPlan, LogicalAnnotation, PhysicalType,
    SchemaError,
};

fn prop(key: &str, typ: &str, format: Option<&str>, required: bool) -> BasicSchemaProperty {
    BasicSchemaProperty {
        key: key.to_string(),
        typ: typ.to_string(),
        format: format.map(|f| f.to_string()),
        required,
    }
}

fn plan(physical: PhysicalType, logical: LogicalAnnotation, nullable: bool) -> ColumnPlan {
    ColumnPlan { physical, logical, nullable }
}

#[test]
fn boolean_maps_to_boolean() {
    let p = plan_property(&prop("a", "boolean", None, true));
    assert_eq!(p, Some(plan(PhysicalType::Boolean, LogicalAnnotation::Plain, false)));
}

#[test]
fn integer_maps_to_int64() {
    let p = plan_property(&prop("a", "integer", None, false));
    assert_eq!(p, Some(plan(PhysicalType::Int64, LogicalAnnotation::Plain, true)));
}

#[test]
fn number_maps_to_double() {
    let p = plan_property(&prop("a", "number", Some("date"), false));
    assert_eq!(p, Some(plan(PhysicalType::Double, LogicalAnnotation::Plain, true)));
}

#[test]
fn string_formats() {
    assert_eq!(
        plan_property(&prop("s", "string", None, false)),
        Some(plan(PhysicalType::ByteArray, LogicalAnnotation::Utf8, true))
    );
    assert_eq!(
        plan_property(&prop("s", "string", Some("email"), true)),
        Some(plan(PhysicalType::ByteArray, LogicalAnnotation::Utf8, false))
    );
    assert_eq!(
        plan_property(&prop("d", "string", Some("date"), false)),
        Some(plan(PhysicalType::Int32, LogicalAnnotation::Date, true))
    );
    assert_eq!(
        plan_property(&prop("t", "string", Some("date-time"), false)),
        Some(plan(PhysicalType::Int64, LogicalAnnotation::TimestampMillis, true))
    );
}

#[test]
fn unsupported_type_has_no_plan() {
    assert_eq!(plan_property(&prop("o", "object", None, false)), None);
    assert_eq!(plan_property(&prop("o", "Boolean", None, false)), None);
    assert_eq!(plan_property(&prop("o", "", None, false)), None);
}

#[test]
fn planning_is_deterministic() {
    let p = prop("a", "string", Some("date-time"), false);
    assert_eq!(plan_property(&p), plan_property(&p));
    let schema = vec![prop("a", "array", None, false)];
    assert_eq!(create_column_plans(&schema), create_column_plans(&schema));
}

#[test]
fn whole_schema_keeps_order() {
    let schema = vec![prop("a", "boolean", None, true), prop("b", "integer", None, false)];
    let plans = create_column_plans(&schema).unwrap();
    assert_eq!(
        plans,
        vec![
            plan(PhysicalType::Boolean, LogicalAnnotation::Plain, false),
            plan(PhysicalType::Int64, LogicalAnnotation::Plain, true),
        ]
    );
}

#[test]
fn empty_schema_is_valid() {
    assert_eq!(create_column_plans(&Vec::new()), Ok(Vec::new()));
}

#[test]
fn unsupported_type_fails_with_its_index() {
    let schema = vec![prop("a", "boolean", None, true), prop("b", "object", None, false), prop("c", "map", None, false)];
    assert_eq!(create_column_plans(&schema), Err(SchemaError::UnsupportedType { index: 1 }));
}

#[test]
fn duplicate_key_fails_with_its_index() {
    let schema = vec![prop("a", "boolean", None, true), prop("b", "number", None, false), prop("a", "string", None, false)];
    assert_eq!(create_column_plans(&schema), Err(SchemaError::DuplicateKey { index: 2 }));
}

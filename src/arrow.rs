//! The same schema described as an arrow schema, for consumers of arrow data.
use vstd::prelude::*;
use arrow_schema::{DataType, Schema, SchemaBuilder, TimeUnit};
use crate::schema::{create_column_plans, format_view, property_fault, property_plan, schema_valid, str_eq, BasicSchemaProperty, SchemaError};

verus! {

#[verifier::external_type_specification]
#[verifier::external_body]
pub struct ExArrowField(arrow_schema::Field);

#[verifier::external_type_specification]
#[verifier::external_body]
pub struct ExArrowSchema(Schema);

#[verifier::external_type_specification]
#[verifier::external_body]
pub struct ExArrowSchemaBuilder(SchemaBuilder);

/// The arrow data type of a column.
#[derive(PartialEq, Eq, Structural, Clone, Copy, Debug)]
pub enum ArrowType {
    Float64,
    Int64,
    Boolean,
    Date32,
    TimestampMillis,
    Utf8,
}

/// The name, type and nullability of an arrow field.
pub uninterp spec fn arrow_field_view(f: arrow_schema::Field) -> (Seq<char>, ArrowType, bool);

/// The fields pushed into a schema builder, in order.
pub uninterp spec fn builder_fields(b: SchemaBuilder) -> Seq<(Seq<char>, ArrowType, bool)>;

/// The fields of an arrow schema, in order.
pub uninterp spec fn schema_fields(s: Schema) -> Seq<(Seq<char>, ArrowType, bool)>;

/// The field that a property becomes.
pub open spec fn property_field(p: BasicSchemaProperty) -> (Seq<char>, ArrowType, bool) {
    (p.key@, arrow_type_of(p.typ@, format_view(p.format))->Some_0, !p.required)
}

/// The arrow type for a declared type and format; `None` for an unsupported type.
pub open spec fn arrow_type_of(typ: Seq<char>, format: Option<Seq<char>>) -> Option<ArrowType> {
    if typ == "number"@ {
        Some(ArrowType::Float64)
    } else if typ == "integer"@ {
        Some(ArrowType::Int64)
    } else if typ == "boolean"@ {
        Some(ArrowType::Boolean)
    } else if typ == "string"@ {
        if format == Some("date"@) {
            Some(ArrowType::Date32)
        } else if format == Some("date-time"@) {
            Some(ArrowType::TimestampMillis)
        } else {
            Some(ArrowType::Utf8)
        }
    } else {
        None
    }
}

/// The arrow type of one property; `None` when its type is unsupported.
pub fn arrow_type(prop: &BasicSchemaProperty) -> (r: Option<ArrowType>)
    ensures
        r == arrow_type_of(prop.typ@, format_view(prop.format)),
{
    let typ = prop.typ.as_str();
    if str_eq(typ, "number") {
        Some(ArrowType::Float64)
    } else if str_eq(typ, "integer") {
        Some(ArrowType::Int64)
    } else if str_eq(typ, "boolean") {
        Some(ArrowType::Boolean)
    } else if str_eq(typ, "string") {
        let is_date = match &prop.format {
            Some(f) => str_eq(f.as_str(), "date"),
            None => false,
        };
        let is_date_time = match &prop.format {
            Some(f) => str_eq(f.as_str(), "date-time"),
            None => false,
        };
        if is_date {
            Some(ArrowType::Date32)
        } else if is_date_time {
            Some(ArrowType::TimestampMillis)
        } else {
            Some(ArrowType::Utf8)
        }
    } else {
        None
    }
}

/// Relies on `arrow_schema::Field::new`: a field named `name` of the given type and nullability.
#[verifier::external_body]
fn arrow_field(name: &str, t: ArrowType, nullable: bool) -> (r: arrow_schema::Field)
    ensures
        arrow_field_view(r) == (name@, t, nullable),
{
    let data_type = match t {
        ArrowType::Float64 => DataType::Float64,
        ArrowType::Int64 => DataType::Int64,
        ArrowType::Boolean => DataType::Boolean,
        ArrowType::Date32 => DataType::Date32,
        ArrowType::TimestampMillis => DataType::Timestamp(TimeUnit::Millisecond, None),
        ArrowType::Utf8 => DataType::Utf8,
    };
    arrow_schema::Field::new(name, data_type, nullable)
}

/// Relies on `SchemaBuilder::new`: a builder with no fields.
#[verifier::external_body]
fn new_schema_builder() -> (r: SchemaBuilder)
    ensures
        builder_fields(r) == Seq::<(Seq<char>, ArrowType, bool)>::empty(),
{
    SchemaBuilder::new()
}

/// Relies on `SchemaBuilder::push`: appends a field after those pushed before.
#[verifier::external_body]
fn push_field(b: &mut SchemaBuilder, f: arrow_schema::Field)
    ensures
        builder_fields(*final(b)) == builder_fields(*old(b)).push(arrow_field_view(f)),
{
    b.push(f)
}

/// Relies on `SchemaBuilder::finish`: the schema of the pushed fields, in order.
#[verifier::external_body]
fn finish_schema(b: SchemaBuilder) -> (r: Schema)
    ensures
        schema_fields(r) == builder_fields(b),
{
    b.finish()
}

proof fn lemma_planned_has_arrow_type(p: BasicSchemaProperty)
    requires
        property_plan(p) is Some,
    ensures
        arrow_type_of(p.typ@, format_view(p.format)) is Some,
{
}

/// The arrow schema of `properties`: one field per property, in order, named by
/// its key, typed by [`arrow_type`], nullable unless required. An invalid schema
/// is refused as [`create_column_plans`] refuses it.
pub fn create_arrow_schema(properties: &Vec<BasicSchemaProperty>) -> (r: Result<Schema, SchemaError>)
    ensures
        schema_valid(properties@) <==> r is Ok,
        r matches Ok(s) ==> schema_fields(s) == properties@.map_values(|p: BasicSchemaProperty| property_field(p)),
        r matches Err(e) ==> {
            &&& e.spec_index() < properties@.len()
            &&& property_fault(properties@, e.spec_index() as int) == Some(e)
            &&& forall|j: int| 0 <= j < e.spec_index() ==> #[trigger] property_fault(properties@, j) is None
        },
{
    create_column_plans(properties)?;
    let mut builder = new_schema_builder();
    let mut i: usize = 0;
    while i < properties.len()
        invariant
            schema_valid(properties@),
            i <= properties@.len(),
            builder_fields(builder) == properties@.take(i as int).map_values(|p: BasicSchemaProperty| property_field(p)),
        decreases properties@.len() - i,
    {
        let prop = &properties[i];
        assert(property_fault(properties@, i as int) is None);
        proof {
            lemma_planned_has_arrow_type(*prop);
        }
        let t = match arrow_type(prop) {
            Some(t) => t,
            None => {
                assert(false);
                return Err(SchemaError::UnsupportedType { index: i });
            },
        };
        let ghost before = builder_fields(builder);
        push_field(&mut builder, arrow_field(prop.key.as_str(), t, !prop.required));
        assert(properties@.take(i + 1).map_values(|p: BasicSchemaProperty| property_field(p)) =~= properties@.take(
            i as int,
        ).map_values(|p: BasicSchemaProperty| property_field(p)).push(property_field(properties@[i as int])));
        i = i + 1;
    }
    assert(properties@.take(properties@.len() as int) =~= properties@);
    Ok(finish_schema(builder))
}

} // verus!

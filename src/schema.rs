//! Column plans: what each declared property becomes in the file.
use vstd::prelude::*;
use vstd::string::StrSliceExecFns;

verus! {

/// One declared column: its key, declared type, optional format and whether it is required.
#[derive(Clone, Debug, PartialEq)]
pub struct BasicSchemaProperty {
    pub key: String,
    pub typ: String,
    pub format: Option<String>,
    pub required: bool,
}

/// How a column's values are stored.
#[derive(PartialEq, Eq, Structural, Clone, Copy, Debug)]
pub enum PhysicalType {
    Boolean,
    Int32,
    Int64,
    Double,
    ByteArray,
}

/// How a column's stored values are read.
#[derive(PartialEq, Eq, Structural, Clone, Copy, Debug)]
pub enum LogicalAnnotation {
    Plain,
    Date,
    TimestampMillis,
    Utf8,
}

/// The resolved encoding of one column.
#[derive(PartialEq, Eq, Structural, Clone, Copy, Debug)]
pub struct ColumnPlan {
    pub physical: PhysicalType,
    pub logical: LogicalAnnotation,
    pub nullable: bool,
}

/// Why a schema was refused; `index` is the position of the offending property.
#[derive(PartialEq, Eq, Structural, Clone, Copy, Debug)]
pub enum SchemaError {
    UnsupportedType { index: usize },
    DuplicateKey { index: usize },
}

impl SchemaError {
    pub open spec fn spec_index(self) -> usize {
        match self {
            SchemaError::UnsupportedType { index } => index,
            SchemaError::DuplicateKey { index } => index,
        }
    }
}

/// The plan for a declared type, format and requiredness; `None` for an unsupported type.
pub open spec fn plan_of(typ: Seq<char>, format: Option<Seq<char>>, required: bool) -> Option<ColumnPlan> {
    let nullable = !required;
    if typ == "boolean"@ {
        Some(ColumnPlan { physical: PhysicalType::Boolean, logical: LogicalAnnotation::Plain, nullable })
    } else if typ == "integer"@ {
        Some(ColumnPlan { physical: PhysicalType::Int64, logical: LogicalAnnotation::Plain, nullable })
    } else if typ == "number"@ {
        Some(ColumnPlan { physical: PhysicalType::Double, logical: LogicalAnnotation::Plain, nullable })
    } else if typ == "string"@ {
        if format == Some("date"@) {
            Some(ColumnPlan { physical: PhysicalType::Int32, logical: LogicalAnnotation::Date, nullable })
        } else if format == Some("date-time"@) {
            Some(ColumnPlan {
                physical: PhysicalType::Int64,
                logical: LogicalAnnotation::TimestampMillis,
                nullable,
            })
        } else {
            Some(ColumnPlan { physical: PhysicalType::ByteArray, logical: LogicalAnnotation::Utf8, nullable })
        }
    } else {
        None
    }
}

/// Planning is total over the known types: boolean, integer, number and
/// string each give a plan whatever the format, with `nullable` the negation of
/// `required`; every other declared type gives none.
pub proof fn lemma_plan_total(typ: Seq<char>, format: Option<Seq<char>>, required: bool)
    ensures
        plan_of(typ, format, required) is Some <==> (typ == "boolean"@ || typ == "integer"@ || typ == "number"@
            || typ == "string"@),
        plan_of(typ, format, required) matches Some(p) ==> p.nullable == !required,
{
}

pub open spec fn format_view(format: Option<String>) -> Option<Seq<char>> {
    match format {
        Some(f) => Some(f@),
        None => None,
    }
}

pub open spec fn property_plan(p: BasicSchemaProperty) -> Option<ColumnPlan> {
    plan_of(p.typ@, format_view(p.format), p.required)
}

/// What is wrong with property `i` of `props`, judged against the properties before it.
pub open spec fn property_fault(props: Seq<BasicSchemaProperty>, i: int) -> Option<SchemaError> {
    if property_plan(props[i]) is None {
        Some(SchemaError::UnsupportedType { index: i as usize })
    } else if exists|j: int| 0 <= j < i && #[trigger] props[j].key@ == props[i].key@ {
        Some(SchemaError::DuplicateKey { index: i as usize })
    } else {
        None
    }
}

/// A schema is valid when no property has a fault.
pub open spec fn schema_valid(props: Seq<BasicSchemaProperty>) -> bool {
    forall|i: int| 0 <= i < props.len() ==> #[trigger] property_fault(props, i) is None
}

/// Whether two strings hold the same characters.
pub fn str_eq(a: &str, b: &str) -> (r: bool)
    ensures
        r == (a@ == b@),
{
    let n = a.unicode_len();
    if n != b.unicode_len() {
        return false;
    }
    let mut i: usize = 0;
    while i < n
        invariant
            n == a@.len(),
            n == b@.len(),
            i <= n,
            a@.subrange(0, i as int) == b@.subrange(0, i as int),
        decreases n - i,
    {
        if a.get_char(i) != b.get_char(i) {
            return false;
        }
        assert(a@.subrange(0, i + 1) == a@.subrange(0, i as int).push(a@[i as int]));
        assert(b@.subrange(0, i + 1) == b@.subrange(0, i as int).push(b@[i as int]));
        i = i + 1;
    }
    assert(a@ == a@.subrange(0, n as int));
    assert(b@ == b@.subrange(0, n as int));
    true
}

/// Whether an optional format names the given string.
fn format_is(format: &Option<String>, name: &str) -> (r: bool)
    ensures
        r == (format_view(*format) == Some(name@)),
{
    match format {
        Some(f) => str_eq(f.as_str(), name),
        None => false,
    }
}

/// The column plan of one property, or `None` when its type is unsupported.
pub fn plan_property(prop: &BasicSchemaProperty) -> (r: Option<ColumnPlan>)
    ensures
        r == property_plan(*prop),
{
    let nullable = !prop.required;
    let typ = prop.typ.as_str();
    if str_eq(typ, "boolean") {
        Some(ColumnPlan { physical: PhysicalType::Boolean, logical: LogicalAnnotation::Plain, nullable })
    } else if str_eq(typ, "integer") {
        Some(ColumnPlan { physical: PhysicalType::Int64, logical: LogicalAnnotation::Plain, nullable })
    } else if str_eq(typ, "number") {
        Some(ColumnPlan { physical: PhysicalType::Double, logical: LogicalAnnotation::Plain, nullable })
    } else if str_eq(typ, "string") {
        if format_is(&prop.format, "date") {
            Some(ColumnPlan { physical: PhysicalType::Int32, logical: LogicalAnnotation::Date, nullable })
        } else if format_is(&prop.format, "date-time") {
            Some(ColumnPlan {
                physical: PhysicalType::Int64,
                logical: LogicalAnnotation::TimestampMillis,
                nullable,
            })
        } else {
            Some(ColumnPlan { physical: PhysicalType::ByteArray, logical: LogicalAnnotation::Utf8, nullable })
        }
    } else {
        None
    }
}

/// The column plans of a whole schema, in order. Fails on the first property that has a fault:
/// an unsupported declared type, or a key that an earlier property already uses.
pub fn create_column_plans(props: &Vec<BasicSchemaProperty>) -> (r: Result<Vec<ColumnPlan>, SchemaError>)
    ensures
        r is Ok <==> schema_valid(props@),
        r matches Ok(plans) ==> plans@.len() == props@.len() && forall|i: int|
            0 <= i < props@.len() ==> Some(#[trigger] plans@[i]) == property_plan(props@[i]),
        r matches Err(e) ==> {
            &&& e.spec_index() < props@.len()
            &&& property_fault(props@, e.spec_index() as int) == Some(e)
            &&& forall|j: int| 0 <= j < e.spec_index() ==> #[trigger] property_fault(props@, j) is None
        },
{
    let mut plans: Vec<ColumnPlan> = Vec::new();
    let mut i: usize = 0;
    while i < props.len()
        invariant
            i <= props@.len(),
            plans@.len() == i,
            forall|k: int| 0 <= k < i ==> Some(#[trigger] plans@[k]) == property_plan(props@[k]),
            forall|k: int| 0 <= k < i ==> #[trigger] property_fault(props@, k) is None,
        decreases props@.len() - i,
    {
        let plan = match plan_property(&props[i]) {
            Some(p) => p,
            None => return Err(SchemaError::UnsupportedType { index: i }),
        };
        let mut j: usize = 0;
        while j < i
            invariant
                j <= i < props@.len(),
                Some(plan) == property_plan(props@[i as int]),
                forall|k: int| 0 <= k < i ==> #[trigger] property_fault(props@, k) is None,
                forall|k: int| 0 <= k < j ==> props@[k].key@ != props@[i as int].key@,
            decreases i - j,
        {
            if props[j].key == props[i].key {
                assert(props@[j as int].key@ == props@[i as int].key@);
                return Err(SchemaError::DuplicateKey { index: i });
            }
            j = j + 1;
        }
        assert(property_fault(props@, i as int) is None);
        plans.push(plan);
        i = i + 1;
    }
    Ok(plans)
}

} // verus!

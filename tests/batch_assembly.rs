use parquet_writer::batch::{assemble_batch, assemble_column, convert_cell, split_values, CellValue, Entry, RowError, Value};
use parquet_writer::date::{parse_date, parse_date_time};
use parquet_writer::schema::{create_column_plans, BasicSchemaProperty, ColumnPlan, LogicalAnnotation, PhysicalType};

fn prop(key: &str, typ: &str, format: Option<&str>, required: bool) -> BasicSchemaProperty {
    BasicSchemaProperty {
        key: key.to_string(),
        typ: typ.to_string(),
        format: format.map(|f| f.to_string()),
        required,
    }
}

fn field(key: &str, value: CellValue) -> Entry {
    Entry { key: key.to_string(), value }
}

fn text(s: &str) -> CellValue {
    CellValue::Text(s.to_string())
}

#[test]
fn round_trip_scenario() {
    let schema = vec![prop("a", "boolean", None, true), prop("b", "integer", None, false)];
    let plans = create_column_plans(&schema).unwrap();
    let rows = vec![
        vec![field("a", CellValue::Bool(true)), field("b", CellValue::Int(5))],
        vec![field("a", CellValue::Bool(false)), field("b", CellValue::Null)],
    ];
    let batches = assemble_batch(&rows, &schema, &plans).unwrap();
    assert_eq!(batches.len(), 2);
    assert_eq!(batches[0].values, vec![Value::Boolean(true), Value::Boolean(false)]);
    assert_eq!(batches[0].definition_levels, vec![1, 1]);
    assert_eq!(batches[1].values, vec![Value::Int64(5)]);
    assert_eq!(batches[1].definition_levels, vec![1, 0]);
}

#[test]
fn date_scenario() {
    let schema = vec![prop("d", "string", Some("date"), false)];
    let plans = create_column_plans(&schema).unwrap();
    let rows = vec![vec![field("d", text("2024-01-02"))]];
    let batches = assemble_batch(&rows, &schema, &plans).unwrap();
    assert_eq!(batches[0].values, vec![Value::Int32(19724)]);
    assert_eq!(batches[0].definition_levels, vec![1]);
}

#[test]
fn date_parsing() {
    assert_eq!(parse_date("1970-01-01"), Some(0));
    assert_eq!(parse_date("1969-12-31"), Some(-1));
    assert_eq!(parse_date("2000-03-01"), Some(11017));
    assert_eq!(parse_date("2024-02-29"), Some(19782));
    assert_eq!(parse_date("0001-01-01"), Some(-719162));
    assert_eq!(parse_date("9999-12-31"), Some(2932896));
    assert_eq!(parse_date("2023-02-29"), None);
    assert_eq!(parse_date("1900-02-29"), None);
    assert_eq!(parse_date("2024-13-01"), None);
    assert_eq!(parse_date("2024-00-10"), None);
    assert_eq!(parse_date("2024-01-32"), None);
    assert_eq!(parse_date("2024-1-02"), None);
    assert_eq!(parse_date("2024/01/02"), None);
    assert_eq!(parse_date(""), None);
}

#[test]
fn required_null_is_refused() {
    let p = ColumnPlan { physical: PhysicalType::Boolean, logical: LogicalAnnotation::Plain, nullable: false };
    let rows = vec![vec![field("a", CellValue::Bool(true))], vec![field("a", CellValue::Null)]];
    assert_eq!(assemble_column(&rows, &"a".to_string(), p, 3), Err(RowError::RequiredNull { row: 1, column: 3 }));
    let rows = vec![vec![field("b", CellValue::Bool(true))]];
    assert_eq!(assemble_column(&rows, &"a".to_string(), p, 0), Err(RowError::RequiredNull { row: 0, column: 0 }));
}

#[test]
fn type_mismatch_is_refused() {
    let p = ColumnPlan { physical: PhysicalType::Boolean, logical: LogicalAnnotation::Plain, nullable: true };
    let rows = vec![vec![field("a", CellValue::Int(1))]];
    assert_eq!(assemble_column(&rows, &"a".to_string(), p, 0), Err(RowError::TypeMismatch { row: 0, column: 0 }));
}

#[test]
fn absent_key_counts_as_null() {
    let p = ColumnPlan { physical: PhysicalType::Double, logical: LogicalAnnotation::Plain, nullable: true };
    let rows = vec![
        vec![field("x", CellValue::Number(1.5f64.to_bits()))],
        vec![],
        vec![field("x", CellValue::Number(f64::NAN.to_bits()))],
    ];
    let b = assemble_column(&rows, &"x".to_string(), p, 0).unwrap();
    assert_eq!(b.values, vec![Value::Double(1.5f64.to_bits()), Value::Double(f64::NAN.to_bits())]);
    assert_eq!(b.definition_levels, vec![1, 0, 1]);
}

#[test]
fn first_entry_of_a_key_wins() {
    let p = ColumnPlan { physical: PhysicalType::Int64, logical: LogicalAnnotation::Plain, nullable: true };
    let rows = vec![vec![field("k", CellValue::Int(1)), field("k", CellValue::Int(2))]];
    let b = assemble_column(&rows, &"k".to_string(), p, 0).unwrap();
    assert_eq!(b.values, vec![Value::Int64(1)]);
}

#[test]
fn empty_rows_give_empty_batches() {
    let schema = vec![prop("a", "boolean", None, true)];
    let plans = create_column_plans(&schema).unwrap();
    let batches = assemble_batch(&Vec::new(), &schema, &plans).unwrap();
    assert_eq!(batches[0].values, Vec::new());
    assert_eq!(batches[0].definition_levels, Vec::<i16>::new());
}

#[test]
fn strings_become_utf8_bytes() {
    let p = ColumnPlan { physical: PhysicalType::ByteArray, logical: LogicalAnnotation::Utf8, nullable: true };
    assert_eq!(convert_cell(p, &text("héllo")), Some(Value::Bytes("héllo".as_bytes().to_vec())));
    assert_eq!(convert_cell(p, &CellValue::Bool(true)), None);
}

#[test]
fn date_column_accepts_day_numbers_in_range() {
    let p = ColumnPlan { physical: PhysicalType::Int32, logical: LogicalAnnotation::Date, nullable: true };
    assert_eq!(convert_cell(p, &CellValue::Int(-3)), Some(Value::Int32(-3)));
    assert_eq!(convert_cell(p, &CellValue::Int(1 << 40)), None);
    assert_eq!(convert_cell(p, &text("not a date")), None);
}

#[test]
fn timestamp_column_takes_milliseconds() {
    let p = ColumnPlan { physical: PhysicalType::Int64, logical: LogicalAnnotation::TimestampMillis, nullable: true };
    assert_eq!(convert_cell(p, &CellValue::Int(1_704_153_600_000)), Some(Value::Int64(1_704_153_600_000)));
}

#[test]
fn error_of_first_failing_column_is_reported() {
    let schema = vec![prop("a", "boolean", None, false), prop("b", "integer", None, true)];
    let plans = create_column_plans(&schema).unwrap();
    let rows = vec![vec![field("a", CellValue::Int(0))], vec![field("b", CellValue::Int(1))]];
    assert_eq!(assemble_batch(&rows, &schema, &plans), Err(RowError::TypeMismatch { row: 0, column: 0 }));
}

#[test]
fn definition_levels_match_rows_and_values() {
    let p = ColumnPlan { physical: PhysicalType::Int64, logical: LogicalAnnotation::Plain, nullable: true };
    let cells = [Some(3), None, None, Some(-7), Some(0), None];
    let rows: Vec<Vec<Entry>> = cells
        .iter()
        .map(|c| match c {
            Some(v) => vec![field("n", CellValue::Int(*v))],
            None => vec![field("n", CellValue::Null)],
        })
        .collect();
    let b = assemble_column(&rows, &"n".to_string(), p, 0).unwrap();
    assert_eq!(b.definition_levels.len(), rows.len());
    assert_eq!(b.definition_levels.iter().filter(|l| **l == 1).count(), b.values.len());
    assert_eq!(b.values, vec![Value::Int64(3), Value::Int64(-7), Value::Int64(0)]);
}

#[test]
fn values_split_by_kind_in_order() {
    let vs = vec![Value::Int32(1), Value::Boolean(true), Value::Int32(2), Value::Bytes(vec![7])];
    let t = split_values(&vs);
    assert_eq!(t.int32s, vec![1, 2]);
    assert_eq!(t.booleans, vec![true]);
    assert_eq!(t.byte_arrays, vec![vec![7u8]]);
    assert!(t.int64s.is_empty() && t.doubles.is_empty());
}

#[test]
fn date_time_parsing() {
    assert_eq!(parse_date_time("1970-01-01T00:00:00"), Some(0));
    assert_eq!(parse_date_time("1970-01-01T00:00:00Z"), Some(0));
    assert_eq!(parse_date_time("2024-01-02T00:00:00.000Z"), Some(1_704_153_600_000));
    assert_eq!(parse_date_time("2024-01-02T03:04:05.6"), Some(1_704_164_645_600));
    assert_eq!(parse_date_time("2024-01-02T03:04:05.67Z"), Some(1_704_164_645_670));
    assert_eq!(parse_date_time("1969-12-31T23:59:59.999Z"), Some(-1));
    assert_eq!(parse_date_time("2024-01-02T24:00:00"), None);
    assert_eq!(parse_date_time("2024-01-02T10:60:00"), None);
    assert_eq!(parse_date_time("2024-01-02 10:00:00"), None);
    assert_eq!(parse_date_time("2024-01-02T10:00:00."), None);
    assert_eq!(parse_date_time("2024-01-02T10:00:00.1234"), None);
    assert_eq!(parse_date_time("2024-01-02T10:00:00+01:00"), None);
    assert_eq!(parse_date_time("2024-01-02"), None);
}

#[test]
fn timestamp_column_reads_date_time_text() {
    let ts = ColumnPlan { physical: PhysicalType::Int64, logical: LogicalAnnotation::TimestampMillis, nullable: true };
    assert_eq!(convert_cell(ts, &text("2024-01-02T00:00:00Z")), Some(Value::Int64(1_704_153_600_000)));
    let int = ColumnPlan { physical: PhysicalType::Int64, logical: LogicalAnnotation::Plain, nullable: true };
    assert_eq!(convert_cell(int, &text("2024-01-02T00:00:00Z")), None);
}

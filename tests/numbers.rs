use parquet_writer::batch::{convert_cell, CellValue, Value};
use parquet_writer::numeric::truncate_to_i64;
use parquet_writer::schema::{ColumnPlan, LogicalAnnotation, PhysicalType};

fn t(x: f64) -> Option<i64> {
    truncate_to_i64(x.to_bits())
}

#[test]
fn truncation_goes_toward_zero() {
    assert_eq!(t(0.0), Some(0));
    assert_eq!(t(-0.0), Some(0));
    assert_eq!(t(0.999), Some(0));
    assert_eq!(t(-0.999), Some(0));
    assert_eq!(t(1.0), Some(1));
    assert_eq!(t(2.7), Some(2));
    assert_eq!(t(-2.7), Some(-2));
    assert_eq!(t(123456789.9), Some(123456789));
    assert_eq!(t(4503599627370497.0), Some(4503599627370497));
    assert_eq!(t(9007199254740993.0), Some(9007199254740992));
    assert_eq!(t(f64::MIN_POSITIVE / 2.0), Some(0));
}

#[test]
fn truncation_refuses_what_does_not_fit() {
    assert_eq!(t(f64::NAN), None);
    assert_eq!(t(f64::INFINITY), None);
    assert_eq!(t(f64::NEG_INFINITY), None);
    assert_eq!(t(1e19), None);
    assert_eq!(t(-1e19), None);
    assert_eq!(t(9223372036854774784.0), Some(9223372036854774784));
    assert_eq!(t(-9223372036854774784.0), Some(-9223372036854774784));
}

#[test]
fn integer_column_truncates_numbers() {
    let p = ColumnPlan { physical: PhysicalType::Int64, logical: LogicalAnnotation::Plain, nullable: true };
    assert_eq!(convert_cell(p, &CellValue::Number((-5.9f64).to_bits())), Some(Value::Int64(-5)));
    assert_eq!(convert_cell(p, &CellValue::Number(f64::NAN.to_bits())), None);
    assert_eq!(convert_cell(p, &CellValue::Text("5".to_string())), None);
}

#[test]
fn number_column_keeps_non_finite_values() {
    let p = ColumnPlan { physical: PhysicalType::Double, logical: LogicalAnnotation::Plain, nullable: true };
    let inf = f64::INFINITY.to_bits();
    assert_eq!(convert_cell(p, &CellValue::Number(inf)), Some(Value::Double(inf)));
    assert_eq!(convert_cell(p, &CellValue::Int(3)), None);
}

#[test]
fn date_column_truncates_day_numbers() {
    let p = ColumnPlan { physical: PhysicalType::Int32, logical: LogicalAnnotation::Date, nullable: true };
    assert_eq!(convert_cell(p, &CellValue::Number(19724.5f64.to_bits())), Some(Value::Int32(19724)));
    assert_eq!(convert_cell(p, &CellValue::Number(3e9f64.to_bits())), None);
}

#[test]
fn truncation_accepts_the_smallest_i64() {
    assert_eq!(t(-9223372036854775808.0), Some(i64::MIN));
    assert_eq!(t(9223372036854775808.0), None);
}

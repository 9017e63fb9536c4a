use parquet_writer::batch::{CellValue, Entry, RowError};
use parquet_writer::exporter::ParquetExporter;
use parquet_writer::schema::{BasicSchemaProperty, SchemaError};
use parquet_writer::sink::{BufferStreamWriter, BufferWriter, Delivery};
use parquet_writer::writer::{create_parquet_schema, ParquetWriter, WriterError};

fn prop(key: &str, typ: &str, format: Option<&str>, required: bool) -> BasicSchemaProperty {
    BasicSchemaProperty {
        key: key.to_string(),
        typ: typ.to_string(),
        format: format.map(|f| f.to_string()),
        required,
    }
}

fn field(key: &str, value: CellValue) -> Entry {
    Entry { key: key.to_string(), value }
}

fn schema() -> Vec<BasicSchemaProperty> {
    vec![
        prop("a", "boolean", None, true),
        prop("b", "integer", None, false),
        prop("c", "number", None, false),
        prop("d", "string", Some("date"), false),
        prop("e", "string", Some("date-time"), false),
        prop("f", "string", None, false),
    ]
}

fn rows(n: i64) -> Vec<Vec<Entry>> {
    (0..n)
        .map(|i| {
            vec![
                field("a", CellValue::Bool(i % 2 == 0)),
                field("b", if i % 3 == 0 { CellValue::Null } else { CellValue::Int(i) }),
                field("c", CellValue::Number((i as f64 / 2.0).to_bits())),
                field("d", CellValue::Text("2024-01-02".to_string())),
                field("e", CellValue::Int(1_704_153_600_000 + i)),
                field("f", CellValue::Text(format!("row {}", i))),
            ]
        })
        .collect()
}

#[test]
fn buffer_writer_accumulates_and_consumes() {
    let mut b = BufferWriter::new();
    assert_eq!(b.write(&[1, 2]), 2);
    assert_eq!(b.write(&[3]), 1);
    assert_eq!(b.consume(), vec![1, 2, 3]);
    assert_eq!(b.consume(), Vec::<u8>::new());
}

#[test]
fn schema_for_the_engine_builds() {
    assert!(create_parquet_schema(&schema()).is_ok());
    let bad = vec![prop("x", "object", None, false)];
    assert!(matches!(
        create_parquet_schema(&bad),
        Err(WriterError::Schema(SchemaError::UnsupportedType { index: 0 }))
    ));
}

#[test]
fn writer_refuses_invalid_schema() {
    let dup = vec![prop("x", "boolean", None, false), prop("x", "number", None, false)];
    assert!(matches!(ParquetWriter::new(dup), Err(WriterError::Schema(SchemaError::DuplicateKey { index: 1 }))));
}

#[test]
fn file_has_magic_at_both_ends() {
    let mut w = ParquetWriter::new(schema()).unwrap();
    let mut out = Vec::new();
    out.extend(w.add_rows(&rows(5)).unwrap());
    out.extend(w.add_rows(&rows(3)).unwrap());
    out.extend(w.finish().unwrap());
    assert!(out.len() > 8);
    assert_eq!(&out[..4], b"PAR1");
    assert_eq!(&out[out.len() - 4..], b"PAR1");
}

#[test]
fn required_null_scenario() {
    let mut w = ParquetWriter::new(vec![prop("a", "boolean", None, true)]).unwrap();
    let r = w.add_rows(&vec![vec![field("a", CellValue::Null)]]);
    assert_eq!(r, Err(WriterError::Row(RowError::RequiredNull { row: 0, column: 0 })));
    assert!(w.add_rows(&vec![vec![field("a", CellValue::Bool(true))]]).is_ok());
    assert!(w.finish().is_ok());
}

#[test]
fn finish_twice_is_misuse() {
    let mut w = ParquetWriter::new(schema()).unwrap();
    assert!(w.add_rows(&rows(2)).is_ok());
    assert!(w.add_rows(&rows(4)).is_ok());
    assert!(w.finish().is_ok());
    assert_eq!(w.finish(), Err(WriterError::ProtocolMisuse));
    assert_eq!(w.add_rows(&rows(1)), Err(WriterError::ProtocolMisuse));
}

#[test]
fn stream_skips_empty_chunks_and_ends_last() {
    let mut s = BufferStreamWriter::new();
    s.write(vec![1]);
    s.write(Vec::new());
    s.write(vec![2, 3]);
    assert_eq!(s.take_deliveries(), vec![Delivery::Data(vec![1]), Delivery::Data(vec![2, 3])]);
    s.end();
    assert_eq!(s.take_deliveries(), vec![Delivery::End]);
    assert_eq!(s.take_deliveries(), Vec::new());
}

#[test]
fn push_mode_delivers_in_order_then_one_end() {
    let mut x = ParquetExporter::new(schema()).unwrap();
    assert!(x.add_rows(&rows(3)).is_ok());
    assert!(x.add_rows(&rows(2)).is_ok());
    assert!(x.add_rows(&rows(4)).is_ok());
    assert!(x.finish().is_ok());
    assert_eq!(x.finish(), Err(WriterError::ProtocolMisuse));
    let ds = x.take_deliveries();
    assert_eq!(ds.last(), Some(&Delivery::End));
    assert_eq!(ds.iter().filter(|d| **d == Delivery::End).count(), 1);
    assert!(ds.len() <= 3 + 2);
    let mut bytes = Vec::new();
    for d in &ds[..ds.len() - 1] {
        match d {
            Delivery::Data(b) => {
                assert!(!b.is_empty());
                bytes.extend(b.iter().copied());
            }
            Delivery::End => panic!("end before the last delivery"),
        }
    }
    assert_eq!(&bytes[..4], b"PAR1");
    assert_eq!(&bytes[bytes.len() - 4..], b"PAR1");
    assert!(x.take_deliveries().is_empty());
}

#[test]
fn pull_and_push_produce_the_same_bytes() {
    let mut w = ParquetWriter::new(schema()).unwrap();
    let mut x = ParquetExporter::new(schema()).unwrap();
    let mut pulled = Vec::new();
    for n in [2, 6] {
        pulled.extend(w.add_rows(&rows(n)).unwrap());
        x.add_rows(&rows(n)).unwrap();
    }
    pulled.extend(w.finish().unwrap());
    x.finish().unwrap();
    let mut pushed = Vec::new();
    for d in x.take_deliveries() {
        if let Delivery::Data(b) = d {
            pushed.extend(b);
        }
    }
    assert_eq!(pulled, pushed);
}

#[test]
fn all_null_column_in_a_row_group() {
    let mut w = ParquetWriter::new(vec![prop("a", "boolean", None, true), prop("b", "integer", None, false)]).unwrap();
    let rows = vec![vec![field("a", CellValue::Bool(true))], vec![field("a", CellValue::Bool(false))]];
    assert!(w.add_rows(&rows).is_ok());
    assert!(w.add_rows(&Vec::new()).is_ok());
    assert!(w.finish().is_ok());
}

#[test]
fn engine_schema_names_columns_by_key() {
    let t = create_parquet_schema(&vec![prop("a", "boolean", None, true), prop("b", "integer", None, false)]).unwrap();
    assert_eq!(t.name(), "schema");
    let names: Vec<&str> = t.get_fields().iter().map(|f| f.name()).collect();
    assert_eq!(names, vec!["a", "b"]);
}

#[test]
fn refused_batch_changes_nothing() {
    let schema = vec![prop("a", "boolean", None, true)];
    let good = vec![vec![field("a", CellValue::Bool(true))]];
    let bad = vec![vec![field("a", CellValue::Int(1))]];
    let mut w1 = ParquetWriter::new(schema.clone()).unwrap();
    let mut w2 = ParquetWriter::new(schema).unwrap();
    let mut out1 = Vec::new();
    let mut out2 = Vec::new();
    out1.extend(w1.add_rows(&good).unwrap());
    assert_eq!(w1.add_rows(&bad), Err(WriterError::Row(RowError::TypeMismatch { row: 0, column: 0 })));
    out1.extend(w1.finish().unwrap());
    out2.extend(w2.add_rows(&good).unwrap());
    out2.extend(w2.finish().unwrap());
    assert_eq!(out1, out2);
}

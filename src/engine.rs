//! The columnar encoding engine: the parquet crate's schema builders and its
//! file, row-group and column writers, reached through trusted items. Each
//! says which parquet function it relies on. The file and row-group writers
//! are held in opaque structs of this module, as their `W: Write` parameter
//! cannot be declared.
//!
//! What the writers hold is named by the spec functions without a body below.
//! A row-group writer borrows its file writer, and a column writer its
//! row-group writer; what the borrowed writer holds once the borrow ends is
//! stated through `final`, in terms of whether closing the borrowing writer
//! will succeed (`group_will_close`, `column_will_close`), which the `close`
//! wrappers then settle. Only what follows from a successful close is stated.
use vstd::prelude::*;
use std::sync::Arc;
use parquet::basic::{Compression, LogicalType, Repetition, TimeUnit, Type as ParquetPhysical};
use parquet::column::writer::ColumnWriter;
use parquet::data_type::{ByteArray, DataType, DoubleType};
use parquet::errors::ParquetError;
use parquet::file::properties::{WriterProperties, WriterVersion};
use parquet::file::writer::{SerializedColumnWriter, SerializedFileWriter, SerializedRowGroupWriter};
use parquet::format::MilliSeconds;
use parquet::schema::types::Type as SchemaType;
use crate::batch::{count_present, typed_len, TypedValues};
use crate::schema::{ColumnPlan, LogicalAnnotation, PhysicalType};

verus! {

#[verifier::external_type_specification]
#[verifier::external_body]
pub struct ExParquetError(ParquetError);

#[verifier::external_type_specification]
#[verifier::external_body]
pub struct ExSchemaType(SchemaType);

#[verifier::external_type_specification]
#[verifier::external_body]
pub struct ExSerializedColumnWriter<'a>(SerializedColumnWriter<'a>);

#[verifier::external_type_specification]
#[verifier::external_body]
pub struct ExWriterProperties(WriterProperties);

/// An open parquet file writer whose output gathers in memory.
#[verifier::external_body]
pub struct FileEncoder {
    inner: SerializedFileWriter<Vec<u8>>,
}

/// An open row group of a [`FileEncoder`].
#[verifier::external_body]
pub struct RowGroupEncoder<'a> {
    inner: SerializedRowGroupWriter<'a, Vec<u8>>,
}

/// The plan of a leaf schema node, `None` for a group node.
pub uninterp spec fn node_plan(t: SchemaType) -> Option<ColumnPlan>;

/// The plans of the leaves of a root group node, `None` for a leaf node.
pub uninterp spec fn schema_columns(t: SchemaType) -> Option<Seq<ColumnPlan>>;

/// Whether a file writer takes a new row group or `finish`: it is not finished
/// and every row group it opened has been closed.
pub uninterp spec fn file_ready(w: FileEncoder) -> bool;

/// Whether a file writer has written its footer.
pub uninterp spec fn file_finished(w: FileEncoder) -> bool;

/// The name of a schema node.
pub uninterp spec fn node_name(t: SchemaType) -> Seq<char>;

/// The names of the leaves of a root group node, `None` for a leaf node.
pub uninterp spec fn schema_names(t: SchemaType) -> Option<Seq<Seq<char>>>;

/// How many row groups a file writer has closed.
pub uninterp spec fn file_row_groups(w: FileEncoder) -> nat;

/// The plans of a file writer's columns, in schema order.
pub uninterp spec fn file_plans(w: FileEncoder) -> Seq<ColumnPlan>;

/// Every byte that has reached a file writer's in-memory buffer since it was
/// opened, taken or not, in order.
pub uninterp spec fn file_output(w: FileEncoder) -> Seq<u8>;

/// How many bytes of `file_output` have been taken out of the buffer.
pub uninterp spec fn file_taken(w: FileEncoder) -> nat;

/// `a` is a prefix of `b`.
pub open spec fn prefix_of(a: Seq<u8>, b: Seq<u8>) -> bool {
    a.len() <= b.len() && b.take(a.len() as int) == a
}

/// The plans of a row group's columns, in schema order.
pub uninterp spec fn group_plans(g: RowGroupEncoder) -> Seq<ColumnPlan>;

/// How many columns of a row group have been closed.
pub uninterp spec fn group_done(g: RowGroupEncoder) -> nat;

/// Whether every column writer a row group handed out has been closed.
pub uninterp spec fn group_idle(g: RowGroupEncoder) -> bool;

/// The row count that the first closed column of a row group fixed, if any.
pub uninterp spec fn group_rows(g: RowGroupEncoder) -> Option<nat>;

/// Whether closing this row group writer will succeed (its close pushes the
/// row group's metadata into the file writer).
pub uninterp spec fn group_will_close(g: RowGroupEncoder) -> bool;

/// The plan of the column a column writer writes.
pub uninterp spec fn column_plan(c: SerializedColumnWriter) -> ColumnPlan;

/// How many rows (definition levels) a column writer has taken.
pub uninterp spec fn column_rows(c: SerializedColumnWriter) -> nat;

/// The row count its row group expected when the column writer was handed out.
pub uninterp spec fn column_expected(c: SerializedColumnWriter) -> Option<nat>;

/// Whether closing this column writer will succeed (its close pushes the
/// column chunk into the row group and finds the row count consistent).
pub uninterp spec fn column_will_close(c: SerializedColumnWriter) -> bool;

/// The row count of the row group after this column writer's close, when that
/// close succeeds.
pub uninterp spec fn column_closing_rows(c: SerializedColumnWriter) -> nat;

/// A physical type and annotation pair that parquet accepts for a leaf.
pub open spec fn plan_supported(plan: ColumnPlan) -> bool {
    match (plan.physical, plan.logical) {
        (PhysicalType::Boolean, LogicalAnnotation::Plain) => true,
        (PhysicalType::Int64, LogicalAnnotation::Plain) => true,
        (PhysicalType::Double, LogicalAnnotation::Plain) => true,
        (PhysicalType::Int32, LogicalAnnotation::Date) => true,
        (PhysicalType::Int64, LogicalAnnotation::TimestampMillis) => true,
        (PhysicalType::ByteArray, LogicalAnnotation::Utf8) => true,
        _ => false,
    }
}

/// The compression codec of a file's pages.
#[derive(PartialEq, Eq, Structural, Clone, Copy, Debug)]
pub enum Codec {
    Uncompressed,
    Snappy,
}

/// The version of the file format written.
#[derive(PartialEq, Eq, Structural, Clone, Copy, Debug)]
pub enum FormatVersion {
    V1,
    V2,
}

/// Relies on `Type::primitive_type_builder` and its `build`: the leaf node of
/// one column named `key`. `build` refuses no supported pair, as it only checks
/// the annotation against the physical type.
#[verifier::external_body]
pub(crate) fn primitive_field(key: &str, plan: ColumnPlan) -> (r: Result<SchemaType, ParquetError>)
    ensures
        plan_supported(plan) ==> r is Ok,
        r matches Ok(t) ==> node_plan(t) == Some(plan) && schema_columns(t) is None && node_name(t) == key@
            && schema_names(t) is None,
{
    let physical = match plan.physical {
        PhysicalType::Boolean => ParquetPhysical::BOOLEAN,
        PhysicalType::Int32 => ParquetPhysical::INT32,
        PhysicalType::Int64 => ParquetPhysical::INT64,
        PhysicalType::Double => ParquetPhysical::DOUBLE,
        PhysicalType::ByteArray => ParquetPhysical::BYTE_ARRAY,
    };
    let logical = match plan.logical {
        LogicalAnnotation::Plain => None,
        LogicalAnnotation::Date => Some(LogicalType::Date),
        LogicalAnnotation::TimestampMillis => Some(LogicalType::Timestamp { is_adjusted_to_u_t_c: false, unit: TimeUnit::MILLIS(MilliSeconds {}) }),
        LogicalAnnotation::Utf8 => Some(LogicalType::String),
    };
    let repetition = if plan.nullable { Repetition::OPTIONAL } else { Repetition::REQUIRED };
    SchemaType::primitive_type_builder(key, physical).with_logical_type(logical).with_repetition(repetition).build()
}

/// Relies on `Type::group_type_builder` and its `build`: the root node named
/// "schema" over the given leaves, in order; a group without annotation builds.
#[verifier::external_body]
pub(crate) fn root_schema(fields: Vec<SchemaType>) -> (r: Result<SchemaType, ParquetError>)
    requires
        forall|i: int| 0 <= i < fields@.len() ==> #[trigger] node_plan(fields@[i]) is Some,
    ensures
        r is Ok,
        r matches Ok(t) ==> node_plan(t) is None && schema_columns(t) == Some(
            fields@.map_values(|f: SchemaType| node_plan(f)->Some_0),
        ) && node_name(t) == "schema"@ && schema_names(t) == Some(fields@.map_values(|f: SchemaType| node_name(f))),
{
    let fields = fields.into_iter().map(Arc::new).collect();
    SchemaType::group_type_builder("schema").with_fields(fields).build()
}

/// Relies on `WriterProperties::builder` and its `build`: the given codec and
/// format version, and empty key-value metadata.
#[verifier::external_body]
pub(crate) fn writer_properties(codec: Codec, version: FormatVersion) -> (r: WriterProperties) {
    let compression = match codec {
        Codec::Uncompressed => Compression::UNCOMPRESSED,
        Codec::Snappy => Compression::SNAPPY,
    };
    let version = match version {
        FormatVersion::V1 => WriterVersion::PARQUET_1_0,
        FormatVersion::V2 => WriterVersion::PARQUET_2_0,
    };
    WriterProperties::builder().set_compression(compression).set_writer_version(version).set_key_value_metadata(Some(Vec::new())).build()
}

/// Relies on `SerializedFileWriter::new` over an in-memory buffer: it writes the
/// leading magic bytes into memory, which does not fail, and reads the schema,
/// which must be a root group.
#[verifier::external_body]
pub(crate) fn open_file(schema: SchemaType, props: WriterProperties) -> (r: Result<FileEncoder, ParquetError>)
    requires
        schema_columns(schema) is Some,
    ensures
        r is Ok,
        r matches Ok(w) ==> file_ready(w) && file_row_groups(w) == 0 && file_plans(w) == schema_columns(schema)->Some_0
            && file_taken(w) == 0 && !file_finished(w),
{
    SerializedFileWriter::new(Vec::new(), Arc::new(schema), Arc::new(props)).map(|inner| FileEncoder { inner })
}

/// Relies on `SerializedFileWriter::next_row_group`: it fails only when the
/// writer is finished, a row group is still open, or 32767 row groups exist,
/// and then changes nothing. The file writer counts the row group once its
/// writer is closed successfully. Everything written through the row group
/// only appends to the file's output.
#[verifier::external_body]
pub(crate) fn next_row_group(w: &mut FileEncoder) -> (r: Result<RowGroupEncoder<'_>, ParquetError>)
    ensures
        file_ready(*old(w)) && file_row_groups(*old(w)) < 32767 ==> r is Ok,
        r is Err ==> *final(w) == *old(w),
        prefix_of(file_output(*old(w)), file_output(*final(w))),
        file_taken(*final(w)) == file_taken(*old(w)),
        r matches Ok(g) ==> {
            &&& group_plans(g) == file_plans(*old(w))
            &&& group_done(g) == 0
            &&& group_idle(g)
            &&& group_rows(g) is None
            &&& file_plans(*final(w)) == file_plans(*old(w))
            &&& group_will_close(g) ==> file_ready(*final(w)) && !file_finished(*final(w))
                && file_row_groups(*final(w)) == file_row_groups(*old(w)) + 1
        },
{
    w.inner.next_row_group().map(|inner| RowGroupEncoder { inner })
}

/// Relies on `SerializedRowGroupWriter::next_column`: the writer of the next
/// column in schema order while one is left and the previous one was closed.
/// Closing it successfully counts the column and fixes or matches the row count.
#[verifier::external_body]
pub(crate) fn next_column<'a, 'b>(g: &'b mut RowGroupEncoder<'a>) -> (r: Result<Option<SerializedColumnWriter<'b>>, ParquetError>)
    ensures
        group_idle(*old(g)) && group_done(*old(g)) < group_plans(*old(g)).len() ==> r matches Ok(Some(_)),
        r matches Ok(Some(c)) ==> {
            &&& column_plan(c) == group_plans(*old(g))[group_done(*old(g)) as int]
            &&& column_rows(c) == 0
            &&& column_expected(c) == group_rows(*old(g))
            &&& group_plans(*final(g)) == group_plans(*old(g))
            &&& group_will_close(*final(g)) == group_will_close(*old(g))
            &&& column_will_close(c) ==> group_idle(*final(g))
            &&& column_will_close(c) ==> group_done(*final(g)) == group_done(*old(g)) + 1
                && group_rows(*final(g)) == Some(column_closing_rows(c))
        },
{
    g.inner.next_column()
}

/// Relies on `ColumnWriterImpl::write_batch` of the column's physical type: with
/// definition levels of 0 and 1 only (all 1 in a required column) and at least
/// as many values as levels of 1, it takes every level.
#[verifier::external_body]
pub(crate) fn write_column_batch(c: &mut SerializedColumnWriter<'_>, values: &TypedValues, levels: &Vec<i16>) -> (r: Result<usize, ParquetError>)
    ensures
        (forall|k: int| 0 <= k < levels@.len() ==> (#[trigger] levels@[k] == 0 || levels@[k] == 1)
            && (levels@[k] == 0 ==> column_plan(*old(c)).nullable))
            && typed_len(*values, column_plan(*old(c)).physical) >= count_present(levels@) ==> r is Ok,
        r is Ok ==> column_rows(*final(c)) == column_rows(*old(c)) + levels@.len(),
        column_plan(*final(c)) == column_plan(*old(c)),
        column_expected(*final(c)) == column_expected(*old(c)),
        column_will_close(*final(c)) == column_will_close(*old(c)),
        column_closing_rows(*final(c)) == column_closing_rows(*old(c)),
{
    let levels = Some(levels.as_slice());
    match c.untyped() {
        ColumnWriter::BoolColumnWriter(w) => w.write_batch(&values.booleans, levels, None),
        ColumnWriter::Int32ColumnWriter(w) => w.write_batch(&values.int32s, levels, None),
        ColumnWriter::Int64ColumnWriter(w) => w.write_batch(&values.int64s, levels, None),
        ColumnWriter::DoubleColumnWriter(w) => w.write_batch(&values.doubles.iter().copied().map(<DoubleType as DataType>::T::from_bits).collect::<Vec<_>>(), levels, None),
        ColumnWriter::ByteArrayColumnWriter(w) => w.write_batch(&values.byte_arrays.iter().cloned().map(ByteArray::from).collect::<Vec<_>>(), levels, None),
        _ => Err(ParquetError::General("column of a physical type this library does not write".to_string())),
    }
}

/// Relies on `SerializedColumnWriter::close`: it ends the column chunk in memory
/// and fails only when the row count differs from the one its row group expects.
#[verifier::external_body]
pub(crate) fn close_column(c: SerializedColumnWriter<'_>) -> (r: Result<(), ParquetError>)
    ensures
        column_expected(c) is None || column_expected(c) == Some(column_rows(c)) ==> r is Ok,
        r is Ok ==> column_will_close(c) && column_closing_rows(c) == column_rows(c),
{
    c.close()
}

/// Relies on `SerializedRowGroupWriter::close`: with every column written and
/// closed, it records the row group in its file writer.
#[verifier::external_body]
pub(crate) fn close_row_group(g: RowGroupEncoder<'_>) -> (r: Result<(), ParquetError>)
    ensures
        group_idle(g) && group_done(g) == group_plans(g).len() ==> r is Ok,
        r is Ok ==> group_will_close(g),
{
    g.inner.close().map(|_| ())
}

/// Relies on `SerializedFileWriter::finish`: on a ready writer it writes the
/// footer into memory and flushes, which does not fail.
#[verifier::external_body]
pub(crate) fn finish_file(w: &mut FileEncoder) -> (r: Result<(), ParquetError>)
    ensures
        file_ready(*old(w)) ==> r is Ok,
        !file_ready(*final(w)),
        r is Ok ==> file_finished(*final(w)),
        file_plans(*final(w)) == file_plans(*old(w)),
        prefix_of(file_output(*old(w)), file_output(*final(w))),
        file_taken(*final(w)) == file_taken(*old(w)),
{
    w.inner.finish().map(|_| ())
}

/// Relies on `SerializedFileWriter::inner_mut`: takes the bytes that have reached
/// the in-memory buffer so far, leaving it empty; the writer's state is untouched.
#[verifier::external_body]
pub(crate) fn take_output(w: &mut FileEncoder) -> (r: Vec<u8>)
    requires
        file_taken(*old(w)) <= file_output(*old(w)).len(),
    ensures
        r@ == file_output(*old(w)).skip(file_taken(*old(w)) as int),
        file_output(*final(w)) == file_output(*old(w)),
        file_taken(*final(w)) == file_output(*old(w)).len(),
        file_ready(*final(w)) == file_ready(*old(w)),
        file_finished(*final(w)) == file_finished(*old(w)),
        file_row_groups(*final(w)) == file_row_groups(*old(w)),
        file_plans(*final(w)) == file_plans(*old(w)),
{
    std::mem::take(w.inner.inner_mut())
}

} // verus!

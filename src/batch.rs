//! Row batch assembly: row-major records to column-major values and definition levels.
use vstd::prelude::*;
use vstd::string::StrSliceExecFns;
use vstd::utf8::encode_utf8;
use crate::date::{parse_date, parse_date_spec, parse_date_time, parse_date_time_spec};
use crate::numeric::{truncate_spec, truncate_to_i64};
use crate::schema::{BasicSchemaProperty, ColumnPlan, LogicalAnnotation, PhysicalType};

verus! {

/// A value as a caller supplies it. A number is carried as its IEEE-754 bit pattern.
#[derive(Clone, Debug, PartialEq)]
pub enum CellValue {
    Null,
    Bool(bool),
    Int(i64),
    Number(u64),
    Text(String),
}

/// One entry of a row: a column key and the value given for it.
#[derive(Clone, Debug, PartialEq)]
pub struct Entry {
    pub key: String,
    pub value: CellValue,
}

/// A value in a column's physical representation.
#[derive(Clone, Debug, PartialEq)]
pub enum Value {
    Boolean(bool),
    Int32(i32),
    Int64(i64),
    Double(u64),
    Bytes(Vec<u8>),
}

/// The mathematical content of a [`Value`].
pub enum ValueView {
    Boolean(bool),
    Int32(i32),
    Int64(i64),
    Double(u64),
    Bytes(Seq<u8>),
}

impl View for Value {
    type V = ValueView;

    open spec fn view(&self) -> ValueView {
        match self {
            Value::Boolean(b) => ValueView::Boolean(*b),
            Value::Int32(v) => ValueView::Int32(*v),
            Value::Int64(v) => ValueView::Int64(*v),
            Value::Double(v) => ValueView::Double(*v),
            Value::Bytes(v) => ValueView::Bytes(v@),
        }
    }
}

/// One column of one row group: the present values in row order, and one
/// definition level per row (1 present, 0 absent).
#[derive(Clone, Debug, PartialEq)]
pub struct ColumnBatch {
    pub values: Vec<Value>,
    pub definition_levels: Vec<i16>,
}

/// The mathematical content of a [`ColumnBatch`].
pub struct ColumnBatchView {
    pub values: Seq<ValueView>,
    pub levels: Seq<i16>,
}

impl View for ColumnBatch {
    type V = ColumnBatchView;

    open spec fn view(&self) -> ColumnBatchView {
        ColumnBatchView {
            values: self.values@.map_values(|v: Value| v@),
            levels: self.definition_levels@,
        }
    }
}

/// Why a batch of rows was refused; `row` and `column` locate the cell.
#[derive(PartialEq, Eq, Structural, Clone, Copy, Debug)]
pub enum RowError {
    TypeMismatch { row: usize, column: usize },
    RequiredNull { row: usize, column: usize },
}

/// The value at `key` in a row: the first entry with that key, if any.
pub open spec fn lookup(row: Seq<Entry>, key: Seq<char>) -> Option<CellValue>
    decreases row.len(),
{
    if row.len() == 0 {
        None
    } else {
        let prev = lookup(row.drop_last(), key);
        if prev is Some {
            prev
        } else if row.last().key@ == key {
            Some(row.last().value)
        } else {
            None
        }
    }
}

/// Whether a looked-up cell counts as null: absent, or an explicit null.
pub open spec fn is_null_cell(c: Option<CellValue>) -> bool {
    c is None || c == Some(CellValue::Null)
}

/// The physical value of a present cell under a plan; `None` when its kind does not fit.
/// A number bound for an integer column is truncated toward zero, and refused
/// when it is NaN, infinite or out of the column's range. Text is read as a
/// calendar date for a date column and as a date-time for a timestamp column.
pub open spec fn convert(plan: ColumnPlan, v: CellValue) -> Option<ValueView> {
    match (plan.physical, v) {
        (PhysicalType::Boolean, CellValue::Bool(b)) => Some(ValueView::Boolean(b)),
        (PhysicalType::Int64, CellValue::Int(i)) => Some(ValueView::Int64(i)),
        (PhysicalType::Int64, CellValue::Number(bits)) => match truncate_spec(bits) {
            Some(i) => Some(ValueView::Int64(i as i64)),
            None => None,
        },
        (PhysicalType::Int64, CellValue::Text(s)) => if plan.logical == LogicalAnnotation::TimestampMillis {
            match parse_date_time_spec(s@) {
                Some(ms) => Some(ValueView::Int64(ms as i64)),
                None => None,
            }
        } else {
            None
        },
        (PhysicalType::Double, CellValue::Number(bits)) => Some(ValueView::Double(bits)),
        (PhysicalType::Int32, CellValue::Int(i)) => if i32::MIN <= i <= i32::MAX {
            Some(ValueView::Int32(i as i32))
        } else {
            None
        },
        (PhysicalType::Int32, CellValue::Number(bits)) => match truncate_spec(bits) {
            Some(i) => if i32::MIN <= i <= i32::MAX {
                Some(ValueView::Int32(i as i32))
            } else {
                None
            },
            None => None,
        },
        (PhysicalType::Int32, CellValue::Text(s)) => match parse_date_spec(s@) {
            Some(d) => Some(ValueView::Int32(d as i32)),
            None => None,
        },
        (PhysicalType::ByteArray, CellValue::Text(s)) => Some(ValueView::Bytes(encode_utf8(s@))),
        _ => None,
    }
}

/// What one cell contributes to its column: `Ok(None)` for a null,
/// `Ok(Some(v))` for a present value, or the error it raises.
pub open spec fn cell_outcome(plan: ColumnPlan, cell: Option<CellValue>, row: int, column: int) -> Result<Option<ValueView>, RowError> {
    if is_null_cell(cell) {
        if plan.nullable {
            Ok(None)
        } else {
            Err(RowError::RequiredNull { row: row as usize, column: column as usize })
        }
    } else {
        match convert(plan, cell->Some_0) {
            Some(v) => Ok(Some(v)),
            None => Err(RowError::TypeMismatch { row: row as usize, column: column as usize }),
        }
    }
}

/// The column batch that `rows` give for the column at `key`, or the error of its first bad row.
pub open spec fn column_spec(rows: Seq<Vec<Entry>>, key: Seq<char>, plan: ColumnPlan, column: int) -> Result<ColumnBatchView, RowError>
    decreases rows.len(),
{
    if rows.len() == 0 {
        Ok(ColumnBatchView { values: Seq::empty(), levels: Seq::empty() })
    } else {
        match column_spec(rows.drop_last(), key, plan, column) {
            Err(e) => Err(e),
            Ok(b) => match cell_outcome(plan, lookup(rows.last()@, key), rows.len() - 1, column) {
                Err(e) => Err(e),
                Ok(None) => Ok(ColumnBatchView { values: b.values, levels: b.levels.push(0) }),
                Ok(Some(v)) => Ok(ColumnBatchView { values: b.values.push(v), levels: b.levels.push(1) }),
            },
        }
    }
}

/// How many definition levels mark a present value.
pub open spec fn count_present(levels: Seq<i16>) -> nat
    decreases levels.len(),
{
    if levels.len() == 0 {
        0
    } else {
        count_present(levels.drop_last()) + if levels.last() == 1 { 1nat } else { 0nat }
    }
}

proof fn lemma_count_present_prefix(levels: Seq<i16>, k: int, n: int)
    requires
        0 <= k <= n <= levels.len(),
    ensures
        count_present(levels.take(k)) <= count_present(levels.take(n)),
        k < n && levels[k] == 1 ==> count_present(levels.take(k)) < count_present(levels.take(n)),
    decreases n - k,
{
    if n > k {
        lemma_count_present_prefix(levels, k, n - 1);
        assert(levels.take(n).drop_last() == levels.take(n - 1));
        if k == n - 1 {
            assert(levels.take(n).last() == levels[k]);
        }
    }
}

/// Every batch has one definition level per row, each 0 or 1, and 1 exactly
/// where the row holds a non-null value; there are as many values as levels of 1.
pub proof fn lemma_column_shape(rows: Seq<Vec<Entry>>, key: Seq<char>, plan: ColumnPlan, column: int)
    requires
        column_spec(rows, key, plan, column) is Ok,
    ensures
        ({
            let b = column_spec(rows, key, plan, column)->Ok_0;
            &&& b.levels.len() == rows.len()
            &&& b.values.len() == count_present(b.levels)
            &&& forall|k: int| 0 <= k < rows.len() ==> (#[trigger] b.levels[k] == 0 || b.levels[k] == 1)
                && (b.levels[k] == 1 <==> !is_null_cell(lookup(rows[k]@, key)))
        }),
    decreases rows.len(),
{
    if rows.len() > 0 {
        let prev = rows.drop_last();
        lemma_column_shape(prev, key, plan, column);
        let b = column_spec(rows, key, plan, column)->Ok_0;
        let pb = column_spec(prev, key, plan, column)->Ok_0;
        assert(b.levels.drop_last() == pb.levels);
        assert forall|k: int| 0 <= k < rows.len() implies (#[trigger] b.levels[k] == 0 || b.levels[k] == 1)
            && (b.levels[k] == 1 <==> !is_null_cell(lookup(rows[k]@, key))) by {
            if k < rows.len() - 1 {
                assert(rows[k] == prev[k]);
                assert(b.levels[k] == pb.levels[k]);
            }
        }
    }
}

/// Row order is kept: the value of the k-th row, when present, stands in the
/// value sequence after exactly the values of the present rows before it.
pub proof fn lemma_column_order(rows: Seq<Vec<Entry>>, key: Seq<char>, plan: ColumnPlan, column: int)
    requires
        column_spec(rows, key, plan, column) is Ok,
    ensures
        ({
            let b = column_spec(rows, key, plan, column)->Ok_0;
            forall|k: int| 0 <= k < rows.len() && #[trigger] b.levels[k] == 1 ==> {
                let i = count_present(b.levels.take(k)) as int;
                &&& 0 <= i < b.values.len()
                &&& Some(b.values[i]) == convert(plan, lookup(rows[k]@, key)->Some_0)
            }
        }),
    decreases rows.len(),
{
    if rows.len() > 0 {
        let prev = rows.drop_last();
        lemma_column_order(prev, key, plan, column);
        lemma_column_shape(prev, key, plan, column);
        lemma_column_shape(rows, key, plan, column);
        let b = column_spec(rows, key, plan, column)->Ok_0;
        let pb = column_spec(prev, key, plan, column)->Ok_0;
        let n = rows.len() - 1;
        assert(b.levels.drop_last() == pb.levels);
        assert(b.levels.take(n) == pb.levels);
        assert forall|k: int| 0 <= k < rows.len() && #[trigger] b.levels[k] == 1 implies {
            let i = count_present(b.levels.take(k)) as int;
            &&& 0 <= i < b.values.len()
            &&& Some(b.values[i]) == convert(plan, lookup(rows[k]@, key)->Some_0)
        } by {
            if k < n {
                assert(rows[k] == prev[k]);
                assert(b.levels[k] == pb.levels[k]);
                assert(b.levels.take(k) == pb.levels.take(k));
                lemma_count_present_prefix(pb.levels, k, n);
                assert(pb.levels.take(n) == pb.levels);
                let i = count_present(pb.levels.take(k)) as int;
                assert(b.values[i] == pb.values[i]);
            } else {
                assert(b.levels.take(n) == pb.levels);
            }
        }
    }
}

proof fn lemma_lookup_prefix(row: Seq<Entry>, key: Seq<char>, k: int, n: int)
    requires
        0 <= k <= n <= row.len(),
        lookup(row.take(k), key) is Some,
    ensures
        lookup(row.take(n), key) == lookup(row.take(k), key),
    decreases n - k,
{
    if n > k {
        lemma_lookup_prefix(row, key, k, n - 1);
        assert(row.take(n).drop_last() == row.take(n - 1));
    }
}

proof fn lemma_column_error_prefix(rows: Seq<Vec<Entry>>, key: Seq<char>, plan: ColumnPlan, column: int, k: int, n: int)
    requires
        0 <= k <= n <= rows.len(),
        column_spec(rows.take(k), key, plan, column) is Err,
    ensures
        column_spec(rows.take(n), key, plan, column) == column_spec(rows.take(k), key, plan, column),
    decreases n - k,
{
    if n > k {
        lemma_column_error_prefix(rows, key, plan, column, k, n - 1);
        assert(rows.take(n).drop_last() == rows.take(n - 1));
    }
}

/// The position of the entry that `lookup` finds.
fn find_key(row: &Vec<Entry>, key: &String) -> (r: Option<usize>)
    ensures
        match r {
            Some(i) => i < row@.len() && lookup(row@, key@) == Some(row@[i as int].value),
            None => lookup(row@, key@) is None,
        },
{
    let mut i: usize = 0;
    while i < row.len()
        invariant
            i <= row@.len(),
            lookup(row@.take(i as int), key@) is None,
        decreases row@.len() - i,
    {
        assert(row@.take(i + 1).drop_last() == row@.take(i as int));
        if row[i].key == *key {
            proof {
                lemma_lookup_prefix(row@, key@, i + 1, row@.len() as int);
                assert(row@.take(row@.len() as int) == row@);
            }
            return Some(i);
        }
        i = i + 1;
    }
    assert(row@.take(row@.len() as int) == row@);
    None
}

/// Converts a present cell to the plan's physical representation.
pub fn convert_cell(plan: ColumnPlan, v: &CellValue) -> (r: Option<Value>)
    ensures
        match r {
            Some(x) => convert(plan, *v) == Some(x@),
            None => convert(plan, *v) is None,
        },
{
    match (plan.physical, v) {
        (PhysicalType::Boolean, CellValue::Bool(b)) => Some(Value::Boolean(*b)),
        (PhysicalType::Int64, CellValue::Int(i)) => Some(Value::Int64(*i)),
        (PhysicalType::Int64, CellValue::Number(bits)) => match truncate_to_i64(*bits) {
            Some(i) => Some(Value::Int64(i)),
            None => None,
        },
        (PhysicalType::Int64, CellValue::Text(s)) => if plan.logical == LogicalAnnotation::TimestampMillis {
            match parse_date_time(s.as_str()) {
                Some(ms) => Some(Value::Int64(ms)),
                None => None,
            }
        } else {
            None
        },
        (PhysicalType::Double, CellValue::Number(bits)) => Some(Value::Double(*bits)),
        (PhysicalType::Int32, CellValue::Int(i)) => if i32::MIN as i64 <= *i && *i <= i32::MAX as i64 {
            Some(Value::Int32(*i as i32))
        } else {
            None
        },
        (PhysicalType::Int32, CellValue::Number(bits)) => match truncate_to_i64(*bits) {
            Some(i) => if i32::MIN as i64 <= i && i <= i32::MAX as i64 {
                Some(Value::Int32(i as i32))
            } else {
                None
            },
            None => None,
        },
        (PhysicalType::Int32, CellValue::Text(s)) => match parse_date(s.as_str()) {
            Some(d) => Some(Value::Int32(d)),
            None => None,
        },
        (PhysicalType::ByteArray, CellValue::Text(s)) => Some(Value::Bytes(s.as_str().as_bytes_vec())),
        _ => None,
    }
}

/// Assembles the column at `key` (position `column` of the schema) from `rows`.
pub fn assemble_column(rows: &Vec<Vec<Entry>>, key: &String, plan: ColumnPlan, column: usize) -> (r: Result<ColumnBatch, RowError>)
    ensures
        match r {
            Ok(b) => column_spec(rows@, key@, plan, column as int) == Ok::<ColumnBatchView, RowError>(b@),
            Err(e) => column_spec(rows@, key@, plan, column as int) == Err::<ColumnBatchView, RowError>(e),
        },
{
    let mut values: Vec<Value> = Vec::new();
    let mut levels: Vec<i16> = Vec::new();
    let mut i: usize = 0;
    assert(values@.map_values(|v: Value| v@) =~= Seq::<ValueView>::empty());
    assert(rows@.take(0) =~= Seq::<Vec<Entry>>::empty());
    while i < rows.len()
        invariant
            i <= rows@.len(),
            column_spec(rows@.take(i as int), key@, plan, column as int) == Ok::<ColumnBatchView, RowError>(
                ColumnBatchView { values: values@.map_values(|v: Value| v@), levels: levels@ },
            ),
        decreases rows@.len() - i,
    {
        assert(rows@.take(i + 1).drop_last() == rows@.take(i as int));
        assert(rows@.take(i + 1).last() == rows@[i as int]);
        let found = find_key(&rows[i], key);
        let null = match found {
            None => true,
            Some(j) => match &rows[i][j].value {
                CellValue::Null => true,
                _ => false,
            },
        };
        if null {
            if !plan.nullable {
                proof {
                    lemma_column_error_prefix(rows@, key@, plan, column as int, i + 1, rows@.len() as int);
                    assert(rows@.take(rows@.len() as int) == rows@);
                }
                return Err(RowError::RequiredNull { row: i, column });
            }
            levels.push(0);
        } else {
            let j = found.unwrap();
            match convert_cell(plan, &rows[i][j].value) {
                Some(v) => {
                    let ghost before = values@;
                    values.push(v);
                    levels.push(1);
                    assert(values@.map_values(|v: Value| v@) =~= before.map_values(|v: Value| v@).push(v@));
                },
                None => {
                    proof {
                        lemma_column_error_prefix(rows@, key@, plan, column as int, i + 1, rows@.len() as int);
                        assert(rows@.take(rows@.len() as int) == rows@);
                    }
                    return Err(RowError::TypeMismatch { row: i, column });
                },
            }
        }
        i = i + 1;
    }
    assert(rows@.take(rows@.len() as int) == rows@);
    Ok(ColumnBatch { values, definition_levels: levels })
}

/// The batches of the first `n` columns, in schema order, or the error of the
/// first column that fails.
pub open spec fn batch_spec(rows: Seq<Vec<Entry>>, props: Seq<BasicSchemaProperty>, plans: Seq<ColumnPlan>, n: int) -> Result<Seq<ColumnBatchView>, RowError>
    decreases n,
{
    if n <= 0 {
        Ok(Seq::empty())
    } else {
        match batch_spec(rows, props, plans, n - 1) {
            Err(e) => Err(e),
            Ok(bs) => match column_spec(rows, props[n - 1].key@, plans[n - 1], n - 1) {
                Err(e) => Err(e),
                Ok(b) => Ok(bs.push(b)),
            },
        }
    }
}

/// Each batch of an assembled row group is the batch of its column.
pub proof fn lemma_batch_columns(rows: Seq<Vec<Entry>>, props: Seq<BasicSchemaProperty>, plans: Seq<ColumnPlan>, n: int)
    requires
        n >= 0,
        batch_spec(rows, props, plans, n) is Ok,
    ensures
        batch_spec(rows, props, plans, n)->Ok_0.len() == n,
        forall|i: int| 0 <= i < n ==> #[trigger] column_spec(rows, props[i].key@, plans[i], i) is Ok,
        forall|i: int| 0 <= i < n ==> #[trigger] batch_spec(rows, props, plans, n)->Ok_0[i]
            == column_spec(rows, props[i].key@, plans[i], i)->Ok_0,
    decreases n,
{
    if n > 0 {
        let prev = batch_spec(rows, props, plans, n - 1);
        let last = column_spec(rows, props[n - 1].key@, plans[n - 1], n - 1);
        assert(prev is Ok);
        assert(last is Ok);
        lemma_batch_columns(rows, props, plans, n - 1);
        let bs = batch_spec(rows, props, plans, n)->Ok_0;
        assert(bs == prev->Ok_0.push(last->Ok_0));
        assert forall|i: int| 0 <= i < n implies #[trigger] column_spec(rows, props[i].key@, plans[i], i) is Ok by {
            if i < n - 1 {
                assert(prev->Ok_0[i] == column_spec(rows, props[i].key@, plans[i], i)->Ok_0);
            }
        }
        assert forall|i: int| 0 <= i < n implies #[trigger] batch_spec(rows, props, plans, n)->Ok_0[i]
            == column_spec(rows, props[i].key@, plans[i], i)->Ok_0 by {
            if i < n - 1 {
                assert(bs[i] == prev->Ok_0[i]);
            }
        }
    }
}

/// Assembles every column of the schema from `rows`, in schema order.
pub fn assemble_batch(rows: &Vec<Vec<Entry>>, props: &Vec<BasicSchemaProperty>, plans: &Vec<ColumnPlan>) -> (r: Result<Vec<ColumnBatch>, RowError>)
    requires
        props@.len() == plans@.len(),
    ensures
        match r {
            Ok(bs) => bs@.len() == props@.len() && batch_spec(rows@, props@, plans@, props@.len() as int)
                == Ok::<Seq<ColumnBatchView>, RowError>(bs@.map_values(|b: ColumnBatch| b@)),
            Err(e) => batch_spec(rows@, props@, plans@, props@.len() as int) == Err::<Seq<ColumnBatchView>, RowError>(e),
        },
{
    let mut out: Vec<ColumnBatch> = Vec::new();
    let mut c: usize = 0;
    assert(out@.map_values(|b: ColumnBatch| b@) =~= Seq::<ColumnBatchView>::empty());
    while c < props.len()
        invariant
            c <= props@.len() == plans@.len(),
            out@.len() == c,
            batch_spec(rows@, props@, plans@, c as int) == Ok::<Seq<ColumnBatchView>, RowError>(
                out@.map_values(|b: ColumnBatch| b@),
            ),
        decreases props@.len() - c,
    {
        match assemble_column(rows, &props[c].key, plans[c], c) {
            Ok(b) => {
                let ghost before = out@;
                out.push(b);
                assert(out@.map_values(|b: ColumnBatch| b@) =~= before.map_values(|b: ColumnBatch| b@).push(
                    out@[c as int]@,
                ));
            },
            Err(e) => {
                proof {
                    lemma_batch_error_prefix(rows@, props@, plans@, c + 1, props@.len() as int);
                }
                return Err(e);
            },
        }
        c = c + 1;
    }
    Ok(out)
}

proof fn lemma_batch_error_prefix(rows: Seq<Vec<Entry>>, props: Seq<BasicSchemaProperty>, plans: Seq<ColumnPlan>, k: int, n: int)
    requires
        0 <= k <= n,
        batch_spec(rows, props, plans, k) is Err,
    ensures
        batch_spec(rows, props, plans, n) == batch_spec(rows, props, plans, k),
    decreases n - k,
{
    if n > k {
        lemma_batch_error_prefix(rows, props, plans, k, n - 1);
    }
}

/// A batch's values sorted by physical representation, in their order.
pub struct TypedValues {
    pub booleans: Vec<bool>,
    pub int32s: Vec<i32>,
    pub int64s: Vec<i64>,
    pub doubles: Vec<u64>,
    pub byte_arrays: Vec<Vec<u8>>,
}

/// The physical type a value belongs to.
pub open spec fn value_physical(v: ValueView) -> PhysicalType {
    match v {
        ValueView::Boolean(_) => PhysicalType::Boolean,
        ValueView::Int32(_) => PhysicalType::Int32,
        ValueView::Int64(_) => PhysicalType::Int64,
        ValueView::Double(_) => PhysicalType::Double,
        ValueView::Bytes(_) => PhysicalType::ByteArray,
    }
}

/// A column batch fits its plan: every value has the plan's physical type, and
/// a row is absent only in a nullable column.
pub proof fn lemma_column_fits_plan(rows: Seq<Vec<Entry>>, key: Seq<char>, plan: ColumnPlan, column: int)
    requires
        column_spec(rows, key, plan, column) is Ok,
    ensures
        ({
            let b = column_spec(rows, key, plan, column)->Ok_0;
            &&& forall|i: int| 0 <= i < b.values.len() ==> value_physical(#[trigger] b.values[i]) == plan.physical
            &&& forall|k: int| 0 <= k < b.levels.len() && #[trigger] b.levels[k] == 0 ==> plan.nullable
        }),
    decreases rows.len(),
{
    if rows.len() > 0 {
        lemma_column_fits_plan(rows.drop_last(), key, plan, column);
        let b = column_spec(rows, key, plan, column)->Ok_0;
        let pb = column_spec(rows.drop_last(), key, plan, column)->Ok_0;
        assert forall|i: int| 0 <= i < b.values.len() implies value_physical(#[trigger] b.values[i]) == plan.physical by {
            if i < pb.values.len() {
                assert(b.values[i] == pb.values[i]);
            }
        }
        assert forall|k: int| 0 <= k < b.levels.len() && #[trigger] b.levels[k] == 0 implies plan.nullable by {
            if k < pb.levels.len() {
                assert(b.levels[k] == pb.levels[k]);
            }
        }
    }
}

/// Values all of one physical type are all kept by the matching list of a split.
proof fn lemma_split_len(vs: Seq<ValueView>, p: PhysicalType)
    requires
        forall|i: int| 0 <= i < vs.len() ==> value_physical(#[trigger] vs[i]) == p,
    ensures
        match p {
            PhysicalType::Boolean => booleans_of(vs).len() == vs.len(),
            PhysicalType::Int32 => int32s_of(vs).len() == vs.len(),
            PhysicalType::Int64 => int64s_of(vs).len() == vs.len(),
            PhysicalType::Double => doubles_of(vs).len() == vs.len(),
            PhysicalType::ByteArray => byte_arrays_of(vs).len() == vs.len(),
        },
    decreases vs.len(),
{
    if vs.len() > 0 {
        let prev = vs.drop_last();
        assert forall|i: int| 0 <= i < prev.len() implies value_physical(#[trigger] prev[i]) == p by {
            assert(prev[i] == vs[i]);
        }
        lemma_split_len(prev, p);
        assert(value_physical(vs[vs.len() - 1]) == p);
    }
}

/// Splits the values of a column whose values all have physical type `p`; the
/// list for `p` keeps every one of them.
pub fn split_column_values(values: &Vec<Value>, p: PhysicalType) -> (r: TypedValues)
    requires
        forall|i: int| 0 <= i < values@.len() ==> value_physical(#[trigger] values@[i]@) == p,
    ensures
        typed_len(r, p) == values@.len(),
{
    let r = split_values(values);
    proof {
        let vs = values@.map_values(|v: Value| v@);
        assert forall|i: int| 0 <= i < vs.len() implies value_physical(#[trigger] vs[i]) == p by {
            assert(vs[i] == values@[i]@);
        }
        lemma_split_len(vs, p);
        assert(r.byte_arrays@.len() == r.byte_arrays@.map_values(|b: Vec<u8>| b@).len());
    }
    r
}

/// How many values of the given physical type a [`TypedValues`] holds.
pub open spec fn typed_len(t: TypedValues, p: PhysicalType) -> nat {
    match p {
        PhysicalType::Boolean => t.booleans@.len(),
        PhysicalType::Int32 => t.int32s@.len(),
        PhysicalType::Int64 => t.int64s@.len(),
        PhysicalType::Double => t.doubles@.len(),
        PhysicalType::ByteArray => t.byte_arrays@.len(),
    }
}

/// The values of `values` that are booleans, in order.
pub open spec fn booleans_of(values: Seq<ValueView>) -> Seq<bool>
    decreases values.len(),
{
    if values.len() == 0 {
        Seq::empty()
    } else {
        let rest = booleans_of(values.drop_last());
        match values.last() {
            ValueView::Boolean(b) => rest.push(b),
            _ => rest,
        }
    }
}

pub open spec fn int32s_of(values: Seq<ValueView>) -> Seq<i32>
    decreases values.len(),
{
    if values.len() == 0 {
        Seq::empty()
    } else {
        let rest = int32s_of(values.drop_last());
        match values.last() {
            ValueView::Int32(v) => rest.push(v),
            _ => rest,
        }
    }
}

pub open spec fn int64s_of(values: Seq<ValueView>) -> Seq<i64>
    decreases values.len(),
{
    if values.len() == 0 {
        Seq::empty()
    } else {
        let rest = int64s_of(values.drop_last());
        match values.last() {
            ValueView::Int64(v) => rest.push(v),
            _ => rest,
        }
    }
}

pub open spec fn doubles_of(values: Seq<ValueView>) -> Seq<u64>
    decreases values.len(),
{
    if values.len() == 0 {
        Seq::empty()
    } else {
        let rest = doubles_of(values.drop_last());
        match values.last() {
            ValueView::Double(v) => rest.push(v),
            _ => rest,
        }
    }
}

pub open spec fn byte_arrays_of(values: Seq<ValueView>) -> Seq<Seq<u8>>
    decreases values.len(),
{
    if values.len() == 0 {
        Seq::empty()
    } else {
        let rest = byte_arrays_of(values.drop_last());
        match values.last() {
            ValueView::Bytes(v) => rest.push(v),
            _ => rest,
        }
    }
}

/// Sorts a column's values by physical representation, keeping their order.
pub fn split_values(values: &Vec<Value>) -> (r: TypedValues)
    ensures
        ({
            let vs = values@.map_values(|v: Value| v@);
            &&& r.booleans@ == booleans_of(vs)
            &&& r.int32s@ == int32s_of(vs)
            &&& r.int64s@ == int64s_of(vs)
            &&& r.doubles@ == doubles_of(vs)
            &&& r.byte_arrays@.map_values(|b: Vec<u8>| b@) == byte_arrays_of(vs)
        }),
{
    let mut r = TypedValues {
        booleans: Vec::new(),
        int32s: Vec::new(),
        int64s: Vec::new(),
        doubles: Vec::new(),
        byte_arrays: Vec::new(),
    };
    let mut i: usize = 0;
    assert(r.byte_arrays@.map_values(|b: Vec<u8>| b@) =~= Seq::<Seq<u8>>::empty());
    while i < values.len()
        invariant
            i <= values@.len(),
            ({
                let vs = values@.map_values(|v: Value| v@).take(i as int);
                &&& r.booleans@ == booleans_of(vs)
                &&& r.int32s@ == int32s_of(vs)
                &&& r.int64s@ == int64s_of(vs)
                &&& r.doubles@ == doubles_of(vs)
                &&& r.byte_arrays@.map_values(|b: Vec<u8>| b@) == byte_arrays_of(vs)
            }),
        decreases values@.len() - i,
    {
        let ghost vs = values@.map_values(|v: Value| v@);
        assert(vs.take(i + 1).drop_last() =~= vs.take(i as int));
        assert(vs.take(i + 1).last() == values@[i as int]@);
        let ghost before = r.byte_arrays@;
        match &values[i] {
            Value::Boolean(b) => r.booleans.push(*b),
            Value::Int32(v) => r.int32s.push(*v),
            Value::Int64(v) => r.int64s.push(*v),
            Value::Double(v) => r.doubles.push(*v),
            Value::Bytes(v) => {
                r.byte_arrays.push(v.clone());
                assert(r.byte_arrays@.map_values(|b: Vec<u8>| b@) =~= before.map_values(|b: Vec<u8>| b@).push(v@));
            },
        }
        i = i + 1;
    }
    assert(values@.map_values(|v: Value| v@).take(values@.len() as int) =~= values@.map_values(|v: Value| v@));
    r
}

} // verus!

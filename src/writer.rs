//! The pull-mode writer: a schema, an open encoding engine and an output buffer,
//! driven one row group per `add_rows` call and closed by one `finish`.
use vstd::prelude::*;
use parquet::file::writer::SerializedColumnWriter;
use parquet::schema::types::Type as SchemaType;
use crate::batch::{
    assemble_batch, batch_spec, column_spec, count_present, lemma_batch_columns, lemma_column_fits_plan, lemma_column_shape,
    split_column_values, value_physical, ColumnBatch, ColumnBatchView, Entry,
};
use crate::engine::{
    close_column, close_row_group, column_closing_rows, column_expected, column_plan, column_rows,
    column_will_close, file_finished, file_output, file_plans, file_ready, file_row_groups, file_taken, prefix_of, finish_file, group_done, group_idle,
    group_plans, group_rows, group_will_close, next_column, next_row_group, node_name, node_plan, open_file,
    plan_supported, primitive_field, root_schema, schema_columns, schema_names, take_output, write_column_batch,
    writer_properties, Codec, FileEncoder, FormatVersion, RowGroupEncoder,
};
use crate::schema::{
    create_column_plans, property_fault, property_plan, schema_valid, BasicSchemaProperty, ColumnPlan,
    SchemaError,
};
use crate::sink::BufferWriter;

verus! {

/// Why a writer operation failed.
#[derive(PartialEq, Eq, Structural, Clone, Copy, Debug)]
pub enum WriterError {
    /// The schema was refused; no writer exists.
    Schema(SchemaError),
    /// A row of the batch was refused; nothing of the batch was written.
    Row(crate::batch::RowError),
    /// The encoding engine failed; the writer is unusable afterwards.
    Engine,
    /// `add_rows` after `finish`, `finish` twice, or any call after an engine failure.
    ProtocolMisuse,
}

/// Where a writer stands in its lifecycle.
#[derive(PartialEq, Eq, Structural, Clone, Copy, Debug)]
pub enum Phase {
    Open,
    Finished,
    Failed,
}

/// What a writer has done so far: its phase and the row groups it committed, in order.
pub struct WriterModel {
    pub phase: Phase,
    pub row_groups: Seq<Seq<ColumnBatchView>>,
}

/// The effect of `add_rows` on a writer, given the batch that its rows assemble to
/// and whether the engine accepted it.
pub open spec fn add_rows_model(m: WriterModel, batch: Result<Seq<ColumnBatchView>, crate::batch::RowError>, engine_ok: bool) -> (WriterModel, Result<(), WriterError>) {
    if m.phase != Phase::Open {
        (m, Err(WriterError::ProtocolMisuse))
    } else {
        match batch {
            Err(e) => (m, Err(WriterError::Row(e))),
            Ok(bs) => if engine_ok {
                (WriterModel { phase: Phase::Open, row_groups: m.row_groups.push(bs) }, Ok(()))
            } else {
                (WriterModel { phase: Phase::Failed, row_groups: m.row_groups }, Err(WriterError::Engine))
            },
        }
    }
}

/// The effect of `finish` on a writer, given whether the engine accepted it.
pub open spec fn finish_model(m: WriterModel, engine_ok: bool) -> (WriterModel, Result<(), WriterError>) {
    if m.phase != Phase::Open {
        (m, Err(WriterError::ProtocolMisuse))
    } else if engine_ok {
        (WriterModel { phase: Phase::Finished, row_groups: m.row_groups }, Ok(()))
    } else {
        (WriterModel { phase: Phase::Failed, row_groups: m.row_groups }, Err(WriterError::Engine))
    }
}

/// Row groups are committed in call order: accepted `add_rows` calls on an open
/// writer each append their batch as one row group, after those before it.
pub proof fn lemma_row_groups_in_call_order(states: Seq<WriterModel>, batches: Seq<Seq<ColumnBatchView>>)
    requires
        states.len() == batches.len() + 1,
        states[0].phase == Phase::Open,
        forall|i: int| 0 <= i < batches.len() ==> states[i + 1] == (#[trigger] add_rows_model(states[i], Ok(batches[i]), true)).0,
    ensures
        states.last().phase == Phase::Open,
        states.last().row_groups == states[0].row_groups + batches,
    decreases batches.len(),
{
    if batches.len() > 0 {
        let n = batches.len() - 1;
        lemma_row_groups_in_call_order(states.drop_last(), batches.drop_last());
        assert(states.drop_last().last() == states[n]);
        assert(add_rows_model(states[n], Ok(batches[n]), true).0 == states[n + 1]);
        assert(states[0].row_groups + batches =~= (states[0].row_groups + batches.drop_last()).push(batches[n]));
    }
}

/// `finish` takes effect once: once it has run on an open writer, a second
/// `finish` and any `add_rows` fail with `ProtocolMisuse` and change nothing.
pub proof fn lemma_finish_once(
    m: WriterModel,
    engine_ok: bool,
    batch: Result<Seq<ColumnBatchView>, crate::batch::RowError>,
    later_ok: bool,
)
    requires
        m.phase == Phase::Open,
    ensures
        ({
            let after = finish_model(m, engine_ok).0;
            &&& after.row_groups == m.row_groups
            &&& finish_model(after, later_ok) == (after, Err::<(), WriterError>(WriterError::ProtocolMisuse))
            &&& add_rows_model(after, batch, later_ok) == (after, Err::<(), WriterError>(WriterError::ProtocolMisuse))
        }),
{
}

/// A result with its success value forgotten.
pub open spec fn outcome<T>(r: Result<T, WriterError>) -> Result<(), WriterError> {
    match r {
        Ok(_) => Ok(()),
        Err(e) => Err(e),
    }
}

/// Builds the engine's schema for `properties`, in order. Fails with `Schema`
/// exactly when the schema is invalid, naming its first faulty property, and
/// succeeds otherwise.
pub fn create_parquet_schema(properties: &Vec<BasicSchemaProperty>) -> (r: Result<SchemaType, WriterError>)
    ensures
        schema_valid(properties@) ==> (r matches Ok(t) && schema_columns(t) == Some(
            properties@.map_values(|p: BasicSchemaProperty| property_plan(p)->Some_0),
        ) && node_name(t) == "schema"@ && schema_names(t) == Some(
            properties@.map_values(|p: BasicSchemaProperty| p.key@),
        )),
        !schema_valid(properties@) ==> (r matches Err(WriterError::Schema(e)) && {
            &&& e.spec_index() < properties@.len()
            &&& property_fault(properties@, e.spec_index() as int) == Some(e)
            &&& forall|j: int| 0 <= j < e.spec_index() ==> #[trigger] property_fault(properties@, j) is None
        }),
{
    let plans = match create_column_plans(properties) {
        Ok(p) => p,
        Err(e) => return Err(WriterError::Schema(e)),
    };
    let schema = build_schema(properties, &plans)?;
    assert(plans@ =~= properties@.map_values(|p: BasicSchemaProperty| property_plan(p)->Some_0));
    Ok(schema)
}

proof fn lemma_prefix_of_self(a: Seq<u8>)
    ensures
        prefix_of(a, a),
        prefix_of(Seq::empty(), a),
{
    assert(a.take(a.len() as int) =~= a);
    assert(a.take(0) =~= Seq::<u8>::empty());
}

proof fn lemma_prefix_of_trans(a: Seq<u8>, b: Seq<u8>, c: Seq<u8>)
    requires
        prefix_of(a, b),
        prefix_of(b, c),
    ensures
        prefix_of(a, c),
{
    assert(c.take(a.len() as int) =~= c.take(b.len() as int).take(a.len() as int));
}

proof fn lemma_planned_supported(p: BasicSchemaProperty)
    requires
        property_plan(p) is Some,
    ensures
        plan_supported(property_plan(p)->Some_0),
{
}

fn build_schema(properties: &Vec<BasicSchemaProperty>, plans: &Vec<ColumnPlan>) -> (r: Result<SchemaType, WriterError>)
    requires
        properties@.len() == plans@.len(),
        forall|i: int| 0 <= i < plans@.len() ==> Some(#[trigger] plans@[i]) == property_plan(properties@[i]),
    ensures
        r matches Ok(t) && schema_columns(t) == Some(plans@) && node_name(t) == "schema"@ && schema_names(t) == Some(
            properties@.map_values(|p: BasicSchemaProperty| p.key@),
        ),
{
    let mut fields: Vec<SchemaType> = Vec::new();
    let mut i: usize = 0;
    while i < plans.len()
        invariant
            properties@.len() == plans@.len(),
            forall|k: int| 0 <= k < plans@.len() ==> Some(#[trigger] plans@[k]) == property_plan(properties@[k]),
            i <= plans@.len(),
            fields@.len() == i,
            forall|k: int| 0 <= k < i ==> #[trigger] node_plan(fields@[k]) == Some(plans@[k]),
            forall|k: int| 0 <= k < i ==> #[trigger] node_name(fields@[k]) == properties@[k].key@,
        decreases plans@.len() - i,
    {
        proof {
            lemma_planned_supported(properties@[i as int]);
        }
        let field = match primitive_field(properties[i].key.as_str(), plans[i]) {
            Ok(f) => f,
            Err(_) => {
                assert(false);
                return Err(WriterError::Engine);
            },
        };
        fields.push(field);
        i = i + 1;
    }
    let ghost fs = fields@;
    let schema = match root_schema(fields) {
        Ok(t) => t,
        Err(_) => {
            assert(false);
            return Err(WriterError::Engine);
        },
    };
    assert(fs.map_values(|f: SchemaType| node_plan(f)->Some_0) =~= plans@);
    assert(fs.map_values(|f: SchemaType| node_name(f)) =~= properties@.map_values(|p: BasicSchemaProperty| p.key@));
    Ok(schema)
}

/// A column batch that fits its plan and holds `rows` rows.
pub open spec fn batch_fits(b: ColumnBatchView, plan: ColumnPlan, rows: nat) -> bool {
    &&& b.levels.len() == rows
    &&& b.values.len() == count_present(b.levels)
    &&& forall|i: int| 0 <= i < b.values.len() ==> value_physical(#[trigger] b.values[i]) == plan.physical
    &&& forall|k: int| 0 <= k < b.levels.len() ==> (#[trigger] b.levels[k] == 0 || b.levels[k] == 1)
        && (b.levels[k] == 0 ==> plan.nullable)
}

/// Hands one column batch to its column writer. A batch of no rows is skipped;
/// a batch whose rows are all null still hands over its definition levels, so
/// that every column of the row group covers every row.
fn write_column(c: &mut SerializedColumnWriter<'_>, batch: &ColumnBatch, plan: ColumnPlan) -> (r: Result<(), WriterError>)
    requires
        column_plan(*old(c)) == plan,
        batch_fits(batch@, plan, batch@.levels.len()),
    ensures
        r is Ok,
        column_rows(*final(c)) == column_rows(*old(c)) + batch@.levels.len(),
        column_plan(*final(c)) == column_plan(*old(c)),
        column_expected(*final(c)) == column_expected(*old(c)),
        column_will_close(*final(c)) == column_will_close(*old(c)),
        column_closing_rows(*final(c)) == column_closing_rows(*old(c)),
{
    if batch.definition_levels.len() == 0 {
        return Ok(());
    }
    proof {
        assert forall|i: int| 0 <= i < batch.values@.len() implies value_physical(#[trigger] batch.values@[i]@) == plan.physical by {
            assert(batch@.values[i] == batch.values@[i]@);
        }
    }
    let typed = split_column_values(&batch.values, plan.physical);
    match write_column_batch(c, &typed, &batch.definition_levels) {
        Ok(_) => Ok(()),
        Err(_) => {
            assert(false);
            Err(WriterError::Engine)
        },
    }
}

/// The batches of a row group fit the plans, each with `rows` rows.
pub open spec fn batches_fit(batches: Seq<ColumnBatchView>, plans: Seq<ColumnPlan>, rows: nat) -> bool {
    &&& batches.len() == plans.len()
    &&& forall|i: int| 0 <= i < batches.len() ==> batch_fits(#[trigger] batches[i], plans[i], rows)
}

/// Writes a column chunk per batch, in schema order, into an open row group.
fn write_columns(group: &mut RowGroupEncoder<'_>, batches: &Vec<ColumnBatch>, plans: &Vec<ColumnPlan>, rows: Ghost<nat>) -> (r: Result<(), WriterError>)
    requires
        batches_fit(batches@.map_values(|b: ColumnBatch| b@), plans@, rows@),
        group_plans(*old(group)) == plans@,
        group_done(*old(group)) == 0,
        group_idle(*old(group)),
        group_rows(*old(group)) is None,
    ensures
        r is Ok,
        group_plans(*final(group)) == plans@,
        group_done(*final(group)) == plans@.len(),
        group_idle(*final(group)),
        group_will_close(*final(group)) == group_will_close(*old(group)),
{
    let mut i: usize = 0;
    while i < batches.len()
        invariant
            batches_fit(batches@.map_values(|b: ColumnBatch| b@), plans@, rows@),
            i <= batches@.len(),
            group_plans(*group) == plans@,
            group_done(*group) == i,
            group_idle(*group),
            group_rows(*group) is None || group_rows(*group) == Some(rows@),
            group_will_close(*group) == group_will_close(*old(group)),
        decreases batches@.len() - i,
    {
        let ghost bv = batches@.map_values(|b: ColumnBatch| b@);
        assert(bv[i as int] == batches@[i as int]@);
        assert(batch_fits(bv[i as int], plans@[i as int], rows@));
        let mut c = match next_column(group) {
            Ok(Some(c)) => c,
            _ => {
                assert(false);
                return Err(WriterError::Engine);
            },
        };
        match write_column(&mut c, &batches[i], plans[i]) {
            Ok(()) => {},
            Err(_) => {
                assert(false);
                return Err(WriterError::Engine);
            },
        }
        match close_column(c) {
            Ok(()) => {},
            Err(_) => {
                assert(false);
                return Err(WriterError::Engine);
            },
        }
        i = i + 1;
    }
    Ok(())
}

/// Writes one row group: a column chunk per batch, in schema order.
fn write_row_group(enc: &mut FileEncoder, batches: &Vec<ColumnBatch>, plans: &Vec<ColumnPlan>, rows: Ghost<nat>) -> (r: Result<(), WriterError>)
    requires
        batches_fit(batches@.map_values(|b: ColumnBatch| b@), plans@, rows@),
        file_ready(*old(enc)),
        file_plans(*old(enc)) == plans@,
    ensures
        file_row_groups(*old(enc)) < 32767 ==> r is Ok,
        r is Ok ==> file_ready(*final(enc)) && file_row_groups(*final(enc)) == file_row_groups(*old(enc)) + 1
            && file_plans(*final(enc)) == plans@,
        r is Err ==> r == Err::<(), WriterError>(WriterError::Engine),
        prefix_of(file_output(*old(enc)), file_output(*final(enc))),
        file_taken(*final(enc)) == file_taken(*old(enc)),
{
    let mut group = match next_row_group(enc) {
        Ok(g) => g,
        Err(_) => return Err(WriterError::Engine),
    };
    match write_columns(&mut group, batches, plans, rows) {
        Ok(()) => {},
        Err(_) => {
            assert(false);
            return Err(WriterError::Engine);
        },
    }
    match close_row_group(group) {
        Ok(()) => Ok(()),
        Err(_) => {
            assert(false);
            Err(WriterError::Engine)
        },
    }
}

/// Converts a schema and row batches into a columnar file, one row group per
/// batch; the encoded bytes are handed back as they become available.
pub struct ParquetWriter {
    basic_schema: Vec<BasicSchemaProperty>,
    plans: Vec<ColumnPlan>,
    file_writer: FileEncoder,
    buffer: BufferWriter,
    phase: Phase,
    row_groups: Ghost<Seq<Seq<ColumnBatchView>>>,
    emitted: Ghost<Seq<u8>>,
}

impl ParquetWriter {
    /// The schema the writer was built from.
    pub closed spec fn schema(&self) -> Seq<BasicSchemaProperty> {
        self.basic_schema@
    }

    /// The column plan, one entry per schema property.
    pub closed spec fn plans(&self) -> Seq<ColumnPlan> {
        self.plans@
    }

    /// The writer's phase and committed row groups.
    pub closed spec fn model(&self) -> WriterModel {
        WriterModel { phase: self.phase, row_groups: self.row_groups@ }
    }

    /// Every byte this writer has returned, in order.
    pub closed spec fn emitted(&self) -> Seq<u8> {
        self.emitted@
    }

    /// The engine's state.
    pub closed spec fn encoder(&self) -> FileEncoder {
        self.file_writer
    }

    pub closed spec fn engine_ok(&self) -> bool {
        &&& self.buffer@ == Seq::<u8>::empty()
        &&& file_taken(self.file_writer) == self.emitted@.len()
        &&& prefix_of(self.emitted@, file_output(self.file_writer))
        &&& self.phase == Phase::Open ==> {
            &&& file_ready(self.file_writer)
            &&& file_row_groups(self.file_writer) == self.row_groups@.len()
            &&& file_plans(self.file_writer) == self.plans@
        }
    }


    /// The schema is valid and the plan is derived from it, property by property.
    pub open spec fn wf(&self) -> bool {
        &&& schema_valid(self.schema())
        &&& self.plans().len() == self.schema().len()
        &&& forall|i: int| 0 <= i < self.schema().len() ==> Some(#[trigger] self.plans()[i]) == property_plan(self.schema()[i])
        &&& self.engine_ok()
    }

    /// The batch that `rows` assemble to under this writer's schema.
    pub open spec fn batch_of(&self, rows: Seq<Vec<Entry>>) -> Result<Seq<ColumnBatchView>, crate::batch::RowError> {
        batch_spec(rows, self.schema(), self.plans(), self.schema().len() as int)
    }

    /// Opens a writer for `basic_schema`. Fails with `Schema` exactly when the
    /// schema is invalid, naming its first faulty property; succeeds otherwise.
    pub fn new(basic_schema: Vec<BasicSchemaProperty>) -> (r: Result<ParquetWriter, WriterError>)
        ensures
            schema_valid(basic_schema@) <==> r is Ok,
            match r {
                Ok(w) => {
                    &&& w.wf()
                    &&& w.schema() == basic_schema@
                    &&& w.model() == WriterModel { phase: Phase::Open, row_groups: Seq::empty() }
                    &&& w.emitted() == Seq::<u8>::empty()
                },
                Err(e) => (e matches WriterError::Schema(e) && {
                    &&& e.spec_index() < basic_schema@.len()
                    &&& property_fault(basic_schema@, e.spec_index() as int) == Some(e)
                    &&& forall|j: int| 0 <= j < e.spec_index() ==> #[trigger] property_fault(basic_schema@, j) is None
                }),
            },
    {
        let schema = create_parquet_schema(&basic_schema)?;
        let plans = match create_column_plans(&basic_schema) {
            Ok(p) => p,
            Err(e) => return Err(WriterError::Schema(e)),
        };
        assert(plans@ =~= basic_schema@.map_values(|p: BasicSchemaProperty| property_plan(p)->Some_0));
        let props = writer_properties(Codec::Snappy, FormatVersion::V2);
        let file_writer = match open_file(schema, props) {
            Ok(w) => w,
            Err(_) => {
                assert(false);
                return Err(WriterError::Engine);
            },
        };
        proof {
            lemma_prefix_of_self(file_output(file_writer));
        }
        Ok(ParquetWriter {
            basic_schema,
            plans,
            file_writer,
            buffer: BufferWriter::new(),
            phase: Phase::Open,
            row_groups: Ghost(Seq::empty()),
            emitted: Ghost(Seq::empty()),
        })
    }

    /// Writes `rows` as one row group and returns the encoded bytes that have
    /// left the engine's internal buffer since the last call; the engine holds
    /// small outputs back, so some bytes of this row group may come with a later
    /// call. Every row is checked before the engine sees any of them, so a
    /// refused batch leaves the writer as it was. An open writer takes every
    /// batch that assembles, up to 32767 row groups.
    pub fn add_rows(&mut self, rows: &Vec<Vec<Entry>>) -> (r: Result<Vec<u8>, WriterError>)
        requires
            old(self).wf(),
        ensures
            final(self).wf(),
            final(self).schema() == old(self).schema(),
            final(self).plans() == old(self).plans(),
            (final(self).model(), outcome(r)) == add_rows_model(
                old(self).model(),
                old(self).batch_of(rows@),
                r != Err::<Vec<u8>, WriterError>(WriterError::Engine),
            ),
            old(self).model().phase == Phase::Open && old(self).batch_of(rows@) is Ok
                && old(self).model().row_groups.len() < 32767 ==> r is Ok,
            r matches Ok(b) ==> final(self).emitted() == old(self).emitted() + b@,
            r is Ok ==> final(self).emitted() == file_output(final(self).encoder()),
            r is Err ==> final(self).emitted() == old(self).emitted(),
            r matches Err(WriterError::Row(_)) || r == Err::<Vec<u8>, WriterError>(WriterError::ProtocolMisuse)
                ==> *final(self) == *old(self),
            prefix_of(file_output(old(self).encoder()), file_output(final(self).encoder())),
    {
        proof {
            lemma_prefix_of_self(file_output(self.file_writer));
        }
        if self.phase != Phase::Open {
            return Err(WriterError::ProtocolMisuse);
        }
        let batches = match assemble_batch(rows, &self.basic_schema, &self.plans) {
            Ok(b) => b,
            Err(e) => return Err(WriterError::Row(e)),
        };
        proof {
            let bv = batches@.map_values(|b: ColumnBatch| b@);
            lemma_batch_columns(rows@, self.basic_schema@, self.plans@, self.plans@.len() as int);
            assert forall|i: int| 0 <= i < bv.len() implies batch_fits(#[trigger] bv[i], self.plans@[i], rows@.len()) by {
                assert(column_spec(rows@, self.basic_schema@[i].key@, self.plans@[i], i) is Ok);
                lemma_column_shape(rows@, self.basic_schema@[i].key@, self.plans@[i], i);
                lemma_column_fits_plan(rows@, self.basic_schema@[i].key@, self.plans@[i], i);
            }
        }
        let ghost before = file_output(self.file_writer);
        let written = write_row_group(&mut self.file_writer, &batches, &self.plans, Ghost(rows@.len()));
        proof {
            lemma_prefix_of_trans(self.emitted@, before, file_output(self.file_writer));
        }
        match written {
            Ok(()) => {
                self.row_groups = Ghost(self.row_groups@.push(batches@.map_values(|b: ColumnBatch| b@)));
                let out = take_output(&mut self.file_writer);
                self.buffer.write(out.as_slice());
                let bytes = self.buffer.consume();
                proof {
                    let o = file_output(self.file_writer);
                    let k = old(self).emitted@.len() as int;
                    assert(o.take(k) == old(self).emitted@);
                    assert(bytes@ == o.skip(k));
                    assert(o.take(k) + o.skip(k) =~= o);
                    self.emitted = Ghost(self.emitted@ + bytes@);
                    lemma_prefix_of_self(o);
                }
                Ok(bytes)
            },
            Err(_) => {
                self.phase = Phase::Failed;
                Err(WriterError::Engine)
            },
        }
    }

    /// Writes the footer and returns the remaining bytes. Only the first call
    /// on an open writer does so.
    pub fn finish(&mut self) -> (r: Result<Vec<u8>, WriterError>)
        requires
            old(self).wf(),
        ensures
            final(self).wf(),
            final(self).schema() == old(self).schema(),
            final(self).plans() == old(self).plans(),
            (final(self).model(), outcome(r)) == finish_model(
                old(self).model(),
                r != Err::<Vec<u8>, WriterError>(WriterError::Engine),
            ),
            old(self).model().phase == Phase::Open ==> r is Ok,
            r matches Ok(b) ==> final(self).emitted() == old(self).emitted() + b@,
            r is Ok ==> final(self).emitted() == file_output(final(self).encoder()) && file_finished(final(self).encoder()),
            r is Err ==> final(self).emitted() == old(self).emitted(),
            prefix_of(file_output(old(self).encoder()), file_output(final(self).encoder())),
    {
        proof {
            lemma_prefix_of_self(file_output(self.file_writer));
        }
        if self.phase != Phase::Open {
            return Err(WriterError::ProtocolMisuse);
        }
        let ghost before = file_output(self.file_writer);
        let finished = finish_file(&mut self.file_writer);
        proof {
            lemma_prefix_of_trans(self.emitted@, before, file_output(self.file_writer));
        }
        match finished {
            Ok(()) => {
                self.phase = Phase::Finished;
                let out = take_output(&mut self.file_writer);
                self.buffer.write(out.as_slice());
                let bytes = self.buffer.consume();
                proof {
                    let o = file_output(self.file_writer);
                    let k = old(self).emitted@.len() as int;
                    assert(o.take(k) == old(self).emitted@);
                    assert(bytes@ == o.skip(k));
                    assert(o.take(k) + o.skip(k) =~= o);
                    self.emitted = Ghost(self.emitted@ + bytes@);
                    lemma_prefix_of_self(o);
                }
                Ok(bytes)
            },
            Err(_) => {
                self.phase = Phase::Failed;
                Err(WriterError::Engine)
            },
        }
    }
}

} // verus!

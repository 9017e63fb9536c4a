//! The push-mode writer: each row group's bytes, and the end of the file, are
//! queued as owned messages for a consumer on another execution context.
use vstd::prelude::*;
use crate::batch::{batch_spec, ColumnBatchView, Entry, RowError};
use crate::schema::{property_fault, property_plan, schema_valid, BasicSchemaProperty, ColumnPlan};
use crate::sink::{push_chunk, BufferStreamWriter, Delivery, DeliveryView};
use crate::writer::{add_rows_model, finish_model, outcome, ParquetWriter, Phase, WriterError, WriterModel};

verus! {

/// A writer whose output goes to a [`BufferStreamWriter`] instead of back to the caller.
pub struct ParquetExporter {
    writer: ParquetWriter,
    stream: BufferStreamWriter,
}

impl ParquetExporter {
    pub closed spec fn schema(&self) -> Seq<BasicSchemaProperty> {
        self.writer.schema()
    }

    pub closed spec fn plans(&self) -> Seq<ColumnPlan> {
        self.writer.plans()
    }

    /// The writer's phase and committed row groups.
    pub closed spec fn model(&self) -> WriterModel {
        self.writer.model()
    }

    /// Every byte the writer has handed to the stream, in order.
    pub closed spec fn emitted(&self) -> Seq<u8> {
        self.writer.emitted()
    }

    /// The engine's state.
    pub closed spec fn encoder(&self) -> crate::engine::FileEncoder {
        self.writer.encoder()
    }

    /// Every message queued for the consumer so far, in order.
    pub closed spec fn history(&self) -> Seq<DeliveryView> {
        self.stream.history()
    }

    /// How many messages of the history have been handed over.
    pub closed spec fn taken(&self) -> nat {
        self.stream.taken()
    }

    /// The writer is well formed, and the end marker is queued exactly when the file is finished.
    pub open spec fn wf(&self) -> bool {
        &&& schema_valid(self.schema())
        &&& self.plans().len() == self.schema().len()
        &&& forall|i: int| 0 <= i < self.schema().len() ==> Some(#[trigger] self.plans()[i]) == property_plan(self.schema()[i])
        &&& self.parts_wf()
    }

    pub closed spec fn parts_wf(&self) -> bool {
        &&& self.writer.wf()
        &&& self.stream.wf()
        &&& self.stream.ended() == (self.writer.model().phase == Phase::Finished)
    }

    /// The batch that `rows` assemble to under this exporter's schema.
    pub open spec fn batch_of(&self, rows: Seq<Vec<Entry>>) -> Result<Seq<ColumnBatchView>, RowError> {
        batch_spec(rows, self.schema(), self.plans(), self.schema().len() as int)
    }

    /// Opens an exporter for `basic_schema`; fails as [`ParquetWriter::new`] does:
    /// with `Schema` exactly when the schema is invalid.
    pub fn new(basic_schema: Vec<BasicSchemaProperty>) -> (r: Result<ParquetExporter, WriterError>)
        ensures
            schema_valid(basic_schema@) <==> r is Ok,
            match r {
                Ok(x) => {
                    &&& x.wf()
                    &&& x.schema() == basic_schema@
                    &&& x.model() == WriterModel { phase: Phase::Open, row_groups: Seq::empty() }
                    &&& x.history() == Seq::<DeliveryView>::empty()
                },
                Err(e) => (e matches WriterError::Schema(e) && {
                    &&& e.spec_index() < basic_schema@.len()
                    &&& property_fault(basic_schema@, e.spec_index() as int) == Some(e)
                    &&& forall|j: int| 0 <= j < e.spec_index() ==> #[trigger] property_fault(basic_schema@, j) is None
                }),
            },
    {
        let writer = ParquetWriter::new(basic_schema)?;
        Ok(ParquetExporter { writer, stream: BufferStreamWriter::new() })
    }

    /// Writes `rows` as one row group and queues the bytes it produced.
    pub fn add_rows(&mut self, rows: &Vec<Vec<Entry>>) -> (r: Result<(), WriterError>)
        requires
            old(self).wf(),
        ensures
            final(self).wf(),
            final(self).schema() == old(self).schema(),
            final(self).plans() == old(self).plans(),
            (final(self).model(), outcome(r)) == add_rows_model(
                old(self).model(),
                old(self).batch_of(rows@),
                r != Err::<(), WriterError>(WriterError::Engine),
            ),
            old(self).model().phase == Phase::Open && old(self).batch_of(rows@) is Ok
                && old(self).model().row_groups.len() < 32767 ==> r is Ok,
            r is Ok ==> final(self).history() == push_chunk(
                old(self).history(),
                final(self).emitted().skip(old(self).emitted().len() as int),
            ),
            r is Ok ==> final(self).emitted() == crate::engine::file_output(final(self).encoder()),
            r is Ok ==> old(self).emitted().len() <= final(self).emitted().len()
                && final(self).emitted().take(old(self).emitted().len() as int) == old(self).emitted(),
            r is Err ==> final(self).history() == old(self).history() && final(self).emitted() == old(self).emitted(),
            r matches Err(WriterError::Row(_)) || r == Err::<(), WriterError>(WriterError::ProtocolMisuse)
                ==> *final(self) == *old(self),
    {
        match self.writer.add_rows(rows) {
            Ok(bytes) => {
                let ghost c = bytes@;
                self.stream.write(bytes);
                assert(self.writer.emitted().skip(old(self).emitted().len() as int) =~= c);
                assert(self.writer.emitted().take(old(self).emitted().len() as int) =~= old(self).emitted());
                Ok(())
            },
            Err(e) => Err(e),
        }
    }

    /// Writes the footer, queues the remaining bytes and then the end marker.
    pub fn finish(&mut self) -> (r: Result<(), WriterError>)
        requires
            old(self).wf(),
        ensures
            final(self).wf(),
            final(self).schema() == old(self).schema(),
            final(self).plans() == old(self).plans(),
            (final(self).model(), outcome(r)) == finish_model(
                old(self).model(),
                r != Err::<(), WriterError>(WriterError::Engine),
            ),
            old(self).model().phase == Phase::Open ==> r is Ok,
            r is Ok ==> final(self).history() == push_chunk(
                old(self).history(),
                final(self).emitted().skip(old(self).emitted().len() as int),
            ).push(DeliveryView::End),
            r is Ok ==> final(self).emitted() == crate::engine::file_output(final(self).encoder())
                && crate::engine::file_finished(final(self).encoder()),
            r is Ok ==> old(self).emitted().len() <= final(self).emitted().len()
                && final(self).emitted().take(old(self).emitted().len() as int) == old(self).emitted(),
            r is Err ==> final(self).history() == old(self).history() && final(self).emitted() == old(self).emitted(),
    {
        match self.writer.finish() {
            Ok(bytes) => {
                let ghost c = bytes@;
                self.stream.write(bytes);
                self.stream.end();
                assert(self.writer.emitted().skip(old(self).emitted().len() as int) =~= c);
                assert(self.writer.emitted().take(old(self).emitted().len() as int) =~= old(self).emitted());
                Ok(())
            },
            Err(e) => Err(e),
        }
    }

    /// Hands over the messages queued since the last call, oldest first.
    pub fn take_deliveries(&mut self) -> (r: Vec<Delivery>)
        requires
            old(self).wf(),
        ensures
            final(self).wf(),
            final(self).schema() == old(self).schema(),
            final(self).plans() == old(self).plans(),
            final(self).model() == old(self).model(),
            final(self).emitted() == old(self).emitted(),
            final(self).history() == old(self).history(),
            final(self).taken() == old(self).history().len(),
            r@.map_values(|d: Delivery| d@) == old(self).history().skip(old(self).taken() as int),
    {
        self.stream.take_deliveries()
    }
}

} // verus!

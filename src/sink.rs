//! Where encoded bytes go: a pull-mode accumulator and a push-mode dispatcher.
use vstd::prelude::*;

verus! {

/// Pull-mode accumulator: bytes gather here until the caller takes them.
pub struct BufferWriter {
    accumulated: Vec<u8>,
}

impl View for BufferWriter {
    type V = Seq<u8>;

    closed spec fn view(&self) -> Seq<u8> {
        self.accumulated@
    }
}

impl BufferWriter {
    /// An empty accumulator.
    pub fn new() -> (r: Self)
        ensures
            r@ == Seq::<u8>::empty(),
    {
        BufferWriter { accumulated: Vec::new() }
    }

    /// Appends `buf` after everything accumulated so far; returns its length.
    pub fn write(&mut self, buf: &[u8]) -> (n: usize)
        ensures
            final(self)@ == old(self)@ + buf@,
            n == buf@.len(),
    {
        self.accumulated.extend_from_slice(buf);
        buf.len()
    }

    /// Takes everything accumulated since the last call, leaving the buffer empty.
    pub fn consume(&mut self) -> (r: Vec<u8>)
        ensures
            r@ == old(self)@,
            final(self)@ == Seq::<u8>::empty(),
    {
        let mut taken: Vec<u8> = Vec::new();
        std::mem::swap(&mut taken, &mut self.accumulated);
        taken
    }
}

/// One message to a push-mode consumer.
#[derive(Clone, Debug, PartialEq)]
pub enum Delivery {
    Data(Vec<u8>),
    End,
}

/// The content of a [`Delivery`].
pub enum DeliveryView {
    Data(Seq<u8>),
    End,
}

impl View for Delivery {
    type V = DeliveryView;

    open spec fn view(&self) -> DeliveryView {
        match self {
            Delivery::Data(d) => DeliveryView::Data(d@),
            Delivery::End => DeliveryView::End,
        }
    }
}

/// The messages after handing over one chunk: an empty chunk is skipped.
pub open spec fn push_chunk(history: Seq<DeliveryView>, chunk: Seq<u8>) -> Seq<DeliveryView> {
    if chunk.len() == 0 {
        history
    } else {
        history.push(DeliveryView::Data(chunk))
    }
}

/// The messages that handing over `chunks`, in order, produces from nothing.
pub open spec fn deliveries_of(chunks: Seq<Seq<u8>>) -> Seq<DeliveryView>
    decreases chunks.len(),
{
    if chunks.len() == 0 {
        Seq::empty()
    } else {
        push_chunk(deliveries_of(chunks.drop_last()), chunks.last())
    }
}

/// Push-mode dispatcher: an ordered outbox of owned chunks and one end marker,
/// drained by whoever forwards them to the consumer's execution context.
pub struct BufferStreamWriter {
    pending: Vec<Delivery>,
    ended: bool,
    history: Ghost<Seq<DeliveryView>>,
    taken: Ghost<nat>,
}

impl BufferStreamWriter {
    /// Every message queued so far, drained or not, in order.
    pub closed spec fn history(&self) -> Seq<DeliveryView> {
        self.history@
    }

    /// How many messages of the history have been drained.
    pub closed spec fn taken(&self) -> nat {
        self.taken@
    }

    /// Whether the end marker has been queued.
    pub closed spec fn ended(&self) -> bool {
        self.ended
    }

    /// The pending messages are the history after the drained ones, and the
    /// end marker, once queued, is the last message.
    pub closed spec fn wf(&self) -> bool {
        &&& self.taken@ <= self.history@.len()
        &&& self.pending@.map_values(|d: Delivery| d@) == self.history@.skip(self.taken@ as int)
        &&& self.ended == (self.history@.len() > 0 && self.history@.last() is End)
        &&& forall|i: int| 0 <= i < self.history@.len() - 1 ==> #[trigger] self.history@[i] is Data
    }

    /// A dispatcher that has sent nothing.
    pub fn new() -> (r: Self)
        ensures
            r.wf(),
            r.history() == Seq::<DeliveryView>::empty(),
            r.taken() == 0,
            !r.ended(),
    {
        let r = BufferStreamWriter { pending: Vec::new(), ended: false, history: Ghost(Seq::empty()), taken: Ghost(0) };
        assert(r.pending@.map_values(|d: Delivery| d@) =~= r.history@.skip(0));
        r
    }

    /// Queues a chunk of bytes, moving it in; an empty chunk is skipped.
    pub fn write(&mut self, chunk: Vec<u8>)
        requires
            old(self).wf(),
            !old(self).ended(),
        ensures
            final(self).wf(),
            !final(self).ended(),
            final(self).history() == push_chunk(old(self).history(), chunk@),
            final(self).taken() == old(self).taken(),
    {
        if chunk.len() == 0 {
            return;
        }
        let ghost c = chunk@;
        let ghost before = self.pending@;
        self.pending.push(Delivery::Data(chunk));
        self.history = Ghost(self.history@.push(DeliveryView::Data(c)));
        assert(self.pending@.map_values(|d: Delivery| d@) =~= before.map_values(|d: Delivery| d@).push(
            DeliveryView::Data(c),
        ));
        assert(self.history@.skip(self.taken@ as int) =~= old(self).history@.skip(self.taken@ as int).push(
            DeliveryView::Data(c),
        ));
    }

    /// Queues the end marker, after every chunk queued before.
    pub fn end(&mut self)
        requires
            old(self).wf(),
            !old(self).ended(),
        ensures
            final(self).wf(),
            final(self).ended(),
            final(self).history() == old(self).history().push(DeliveryView::End),
            final(self).taken() == old(self).taken(),
    {
        let ghost before = self.pending@;
        self.pending.push(Delivery::End);
        self.history = Ghost(self.history@.push(DeliveryView::End));
        self.ended = true;
        assert(self.pending@.map_values(|d: Delivery| d@) =~= before.map_values(|d: Delivery| d@).push(
            DeliveryView::End,
        ));
        assert(self.history@.skip(self.taken@ as int) =~= old(self).history@.skip(self.taken@ as int).push(
            DeliveryView::End,
        ));
    }

    /// Hands over the pending messages, oldest first, by value.
    pub fn take_deliveries(&mut self) -> (r: Vec<Delivery>)
        requires
            old(self).wf(),
        ensures
            final(self).wf(),
            final(self).history() == old(self).history(),
            final(self).ended() == old(self).ended(),
            final(self).taken() == old(self).history().len(),
            r@.map_values(|d: Delivery| d@) == old(self).history().skip(old(self).taken() as int),
    {
        let mut r: Vec<Delivery> = Vec::new();
        std::mem::swap(&mut r, &mut self.pending);
        self.taken = Ghost(self.history@.len());
        assert(self.pending@.map_values(|d: Delivery| d@) =~= self.history@.skip(self.taken@ as int));
        r
    }
}

/// Push-mode order: handing over `chunks` one call at a time, then a last chunk
/// and the end marker, delivers every non-empty chunk once, in call order, and
/// then exactly one end marker, which nothing follows.
pub proof fn lemma_push_order(states: Seq<Seq<DeliveryView>>, chunks: Seq<Seq<u8>>, last: Seq<u8>)
    requires
        states.len() == chunks.len() + 1,
        states[0] == Seq::<DeliveryView>::empty(),
        forall|i: int| 0 <= i < chunks.len() ==> states[i + 1] == push_chunk(#[trigger] states[i], chunks[i]),
    ensures
        ({
            let fin = push_chunk(states.last(), last).push(DeliveryView::End);
            &&& fin == deliveries_of(chunks.push(last)).push(DeliveryView::End)
            &&& fin.last() == DeliveryView::End
            &&& forall|i: int| 0 <= i < fin.len() - 1 ==> (#[trigger] fin[i] matches DeliveryView::Data(d) && d.len() > 0)
            &&& fin.len() <= chunks.len() + 2
        }),
{
    lemma_states_follow(states, chunks, chunks.len() as int);
    assert(chunks.take(chunks.len() as int) =~= chunks);
    assert(chunks.push(last).drop_last() == chunks);
    lemma_deliveries_data(chunks.push(last));
    let d = deliveries_of(chunks.push(last));
    assert(d == push_chunk(deliveries_of(chunks), last));
    assert(states.last() == states[chunks.len() as int]);
    let fin = push_chunk(states.last(), last).push(DeliveryView::End);
    assert(fin == d.push(DeliveryView::End));
    assert forall|i: int| 0 <= i < fin.len() - 1 implies (#[trigger] fin[i] matches DeliveryView::Data(x) && x.len() > 0) by {
        assert(fin[i] == d[i]);
    }
}

proof fn lemma_states_follow(states: Seq<Seq<DeliveryView>>, chunks: Seq<Seq<u8>>, n: int)
    requires
        states.len() == chunks.len() + 1,
        0 <= n <= chunks.len(),
        states[0] == Seq::<DeliveryView>::empty(),
        forall|i: int| 0 <= i < chunks.len() ==> states[i + 1] == push_chunk(#[trigger] states[i], chunks[i]),
    ensures
        states[n] == deliveries_of(chunks.take(n)),
    decreases n,
{
    if n == 0 {
        assert(chunks.take(0) =~= Seq::<Seq<u8>>::empty());
    } else {
        lemma_states_follow(states, chunks, n - 1);
        assert(chunks.take(n).drop_last() =~= chunks.take(n - 1));
        assert(states[n] == push_chunk(states[n - 1], chunks[n - 1]));
    }
    if n == chunks.len() {
        assert(chunks.take(n) =~= chunks);
    }
}

proof fn lemma_deliveries_data(chunks: Seq<Seq<u8>>)
    ensures
        deliveries_of(chunks).len() <= chunks.len(),
        forall|i: int| 0 <= i < deliveries_of(chunks).len() ==> (#[trigger] deliveries_of(chunks)[i] matches DeliveryView::Data(d) && d.len() > 0),
    decreases chunks.len(),
{
    if chunks.len() > 0 {
        lemma_deliveries_data(chunks.drop_last());
    }
}

} // verus!

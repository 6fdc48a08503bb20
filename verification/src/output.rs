//! The output stage: the single consumer of a block's events. It turns each
//! event into one record and gathers records that are already queued into one
//! write.

use crate::event::{ContractCreationEvent, EventView};
use crate::record::{batch_text, lemma_views_push, render_batch, views_of};
use vstd::prelude::*;

verus! {

/// The mathematical content of an [`OutputStage`].
pub struct OutputView {
    /// The events taken in and not yet written, oldest first.
    pub batch: Seq<EventView>,
    /// The number of events at which a batch is written at the latest.
    pub limit: nat,
    /// The events written so far, in the order of writing.
    pub written: Seq<EventView>,
}

impl OutputView {
    /// A batch never reaches the limit unwritten.
    pub open spec fn wf(self) -> bool {
        self.batch.len() < self.limit
    }

    /// Every event the stage has taken in, in order.
    pub open spec fn taken(self) -> Seq<EventView> {
        self.written + self.batch
    }

    /// Whether the batch is written once `event` has joined it.
    pub open spec fn writes_after(self, queue_empty: bool) -> bool {
        queue_empty || self.batch.len() + 1 >= self.limit
    }
}

/// The consumer of an event channel.
pub struct OutputStage {
    batch: Vec<ContractCreationEvent>,
    limit: usize,
    written: Ghost<Seq<EventView>>,
}

impl View for OutputStage {
    type V = OutputView;

    closed spec fn view(&self) -> OutputView {
        OutputView {
            batch: views_of(self.batch@),
            limit: self.limit as nat,
            written: self.written@,
        }
    }
}

impl OutputStage {
    /// A stage with nothing taken in, which writes a batch of `limit` events
    /// at the latest; none for a limit of zero.
    pub fn new(limit: usize) -> (stage: Option<Self>)
        ensures
            stage is Some <==> limit > 0,
            stage is Some ==> stage->0@ == (OutputView {
                batch: Seq::empty(),
                limit: limit as nat,
                written: Seq::empty(),
            }) && stage->0@.wf(),
    {
        if limit == 0 {
            return None;
        }
        let stage = OutputStage { batch: Vec::new(), limit, written: Ghost(Seq::empty()) };
        assert(stage@.batch =~= Seq::empty());
        Some(stage)
    }

    /// Takes in the event that was just received. `queue_empty` tells whether
    /// the channel had nothing more queued at that moment. The batch is
    /// written, as the returned text, when the queue is empty or the batch
    /// is full; else the event waits in the batch.
    pub fn accept(&mut self, event: ContractCreationEvent, queue_empty: bool) -> (write: Option<
        String,
    >)
        requires
            old(self)@.wf(),
        ensures
            final(self)@.wf(),
            final(self)@.limit == old(self)@.limit,
            final(self)@.taken() == old(self)@.taken().push(event@),
            write is Some <==> old(self)@.writes_after(queue_empty),
            write is Some ==> write->0@ == batch_text(old(self)@.batch.push(event@)),
            write is Some ==> final(self)@.batch == Seq::<EventView>::empty(),
            write is Some ==> final(self)@.written == old(self)@.written + old(self)@.batch.push(
                event@,
            ),
            write is None ==> final(self)@.batch == old(self)@.batch.push(event@),
            write is None ==> final(self)@.written == old(self)@.written,
    {
        proof {
            lemma_views_push(self.batch@, event);
        }
        self.batch.push(event);
        if queue_empty || self.batch.len() >= self.limit {
            let text = render_batch(&self.batch);
            self.written = Ghost(self.written@ + views_of(self.batch@));
            self.batch.clear();
            assert(self@.batch =~= Seq::<EventView>::empty());
            assert(self@.taken() =~= old(self)@.taken().push(event@));
            Some(text)
        } else {
            assert(self@.taken() =~= old(self)@.taken().push(event@));
            None
        }
    }

    /// Writes what is left in the batch once the channel is closed and
    /// drained: the text of the batch, or nothing where it is empty.
    pub fn finish(&mut self) -> (write: Option<String>)
        requires
            old(self)@.wf(),
        ensures
            final(self)@.wf(),
            final(self)@.limit == old(self)@.limit,
            final(self)@.taken() == old(self)@.taken(),
            final(self)@.batch == Seq::<EventView>::empty(),
            write is Some <==> old(self)@.batch.len() > 0,
            write is Some ==> write->0@ == batch_text(old(self)@.batch),
    {
        if self.batch.len() == 0 {
            assert(self@.batch =~= Seq::<EventView>::empty());
            return None;
        }
        let text = render_batch(&self.batch);
        self.written = Ghost(self.written@ + views_of(self.batch@));
        self.batch.clear();
        assert(self@.batch =~= Seq::<EventView>::empty());
        assert(self@.taken() =~= old(self)@.taken());
        Some(text)
    }

    /// The number of events that wait in the batch.
    pub fn batched(&self) -> (n: usize)
        ensures
            n == self@.batch.len(),
    {
        self.batch.len()
    }

    /// The number of events at which a batch is written at the latest.
    pub fn limit(&self) -> (limit: usize)
        ensures
            limit == self@.limit,
    {
        self.limit
    }
}

} // verus!

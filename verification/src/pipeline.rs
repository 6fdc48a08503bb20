//! One block's pipeline: the fan-out of receipt lookups, the event channel
//! and the output stage, driven step by step. The driver asks for the next
//! action, performs it, and hands receipt results back as they come in.

use crate::channel::{ChannelView, EventChannel, Received, SendOutcome};
use crate::config::{WatcherConfig, OUTPUT_BATCH_LIMIT};
use crate::event::{event_of, wall_clock_ms, ContractCreationEvent, EventView};
use crate::fanout::{FanOut, FanOutView, LookupState};
use crate::model::{
    hash_views, millis_of_seconds, Block, ReceiptLookup, Transaction, TxHash,
};
use crate::output::{OutputStage, OutputView};
use crate::record::batch_text;
use vstd::prelude::*;

verus! {

/// One receipt result that the pipeline took in.
pub struct Arrival {
    /// The position of the transaction in its block.
    pub index: int,
    /// The address of the created contract, where the receipt names one.
    pub created: Option<Seq<u8>>,
    /// When the result was observed.
    pub observed_at_ms: nat,
}

/// The events that a sequence of arrivals gives rise to: one for each arrival
/// that names a created contract, none for any other, in the order of arrival.
pub open spec fn produced(arrivals: Seq<Arrival>, block_timestamp_ms: nat) -> Seq<EventView>
    decreases arrivals.len(),
{
    if arrivals.len() == 0 {
        Seq::empty()
    } else {
        let earlier = produced(arrivals.drop_last(), block_timestamp_ms);
        match arrivals.last().created {
            Some(address) => earlier.push(
                event_of(address, block_timestamp_ms, arrivals.last().observed_at_ms),
            ),
            None => earlier,
        }
    }
}

/// The number of arrivals that name a created contract.
pub open spec fn creation_count(arrivals: Seq<Arrival>) -> nat
    decreases arrivals.len(),
{
    if arrivals.len() == 0 {
        0
    } else {
        creation_count(arrivals.drop_last()) + if arrivals.last().created is Some {
            1nat
        } else {
            0nat
        }
    }
}

/// Whether a result for the transaction at `index` is among the arrivals.
pub open spec fn arrived(arrivals: Seq<Arrival>, index: int) -> bool {
    exists|i: int| 0 <= i < arrivals.len() && #[trigger] arrivals[i].index == index
}

/// The bytes of the contract address that a lookup found, if it found one.
pub open spec fn created_bytes(lookup: ReceiptLookup) -> Option<Seq<u8>> {
    match lookup.created() {
        Some(address) => Some(address@),
        None => None,
    }
}

/// The smaller of two numbers.
pub open spec fn smaller(a: nat, b: nat) -> nat {
    if a <= b {
        a
    } else {
        b
    }
}

/// What the pipeline asks of its driver, as a mathematical value.
pub enum ActionView {
    RequestReceipt { index: int, hash: Seq<u8> },
    Write(Seq<char>),
    AwaitReceipt,
    Finished,
}

/// What the pipeline asks of its driver.
#[derive(Clone, Debug, PartialEq, Eq)]
pub enum PipelineAction {
    /// Request the receipt of the transaction at `index`, whose hash is
    /// `hash`, and hand the result back when it comes in.
    RequestReceipt { index: usize, hash: TxHash },
    /// Write this text, which holds one record per line, and end the line.
    Write(String),
    /// Nothing can be done before a receipt result comes in.
    AwaitReceipt,
    /// Every lookup is done and every event is written.
    Finished,
}

impl View for PipelineAction {
    type V = ActionView;

    open spec fn view(&self) -> ActionView {
        match self {
            PipelineAction::RequestReceipt { index, hash } => ActionView::RequestReceipt {
                index: *index as int,
                hash: hash@,
            },
            PipelineAction::Write(text) => ActionView::Write(text@),
            PipelineAction::AwaitReceipt => ActionView::AwaitReceipt,
            PipelineAction::Finished => ActionView::Finished,
        }
    }
}

/// The mathematical content of a [`BlockPipeline`].
pub struct PipelineView {
    pub fanout: FanOutView,
    pub channel: ChannelView,
    pub output: OutputView,
    pub block_timestamp_ms: nat,
    /// The receipt results taken in so far, in the order of arrival.
    pub arrivals: Seq<Arrival>,
}

impl PipelineView {
    /// Every event produced so far, in the order of arrival.
    pub open spec fn events(self) -> Seq<EventView> {
        produced(self.arrivals, self.block_timestamp_ms)
    }

    /// Whether every lookup is done and every event is written.
    pub open spec fn finished(self) -> bool {
        self.fanout.finished() && self.channel.pending().len() == 0
    }

    /// A measure of the work that is left: it falls with every lookup that
    /// is requested, every result that comes in and every write, and is zero
    /// exactly when the pipeline has finished.
    pub open spec fn work_left(self) -> nat {
        (3 * (self.fanout.states.len() - self.fanout.started) + 2 * self.fanout.in_flight().len()
            + self.channel.pending().len()) as nat
    }

    /// The invariant of the pipeline.
    pub open spec fn wf(self) -> bool {
        &&& self.fanout.wf()
        &&& self.channel.wf()
        &&& self.output.wf()
        &&& self.block_timestamp_ms <= u64::MAX
        &&& self.output.batch.len() == 0
        &&& self.fanout.held == self.channel.held.len()
        &&& self.output.written + self.channel.pending() == self.events()
        &&& self.arrivals.len() + self.fanout.in_flight().len() == self.fanout.started
        &&& forall|i: int, j: int|
            0 <= i < j < self.arrivals.len() ==> self.arrivals[i].index != self.arrivals[j].index
        &&& forall|i: int|
            0 <= i < self.arrivals.len() ==> 0 <= (#[trigger] self.arrivals[i]).index
                < self.fanout.states.len()
        &&& forall|k: int|
            0 <= k < self.fanout.states.len() ==> (#[trigger] self.fanout.states[k]
                == LookupState::Done <==> arrived(self.arrivals, k))
        &&& self.channel.closed ==> self.finished()
    }

    /// The state after the result for the transaction at `index` came in.
    pub open spec fn after_arrival(
        self,
        index: int,
        created: Option<Seq<u8>>,
        observed_at_ms: nat,
    ) -> PipelineView {
        let arrivals = self.arrivals.push(Arrival { index, created, observed_at_ms });
        let done = FanOutView {
            states: self.fanout.states.update(index, LookupState::Done),
            ..self.fanout
        };
        match created {
            None => PipelineView { fanout: done, arrivals, ..self },
            Some(address) => {
                let event = event_of(address, self.block_timestamp_ms, observed_at_ms);
                if self.channel.queued.len() < self.channel.capacity {
                    PipelineView {
                        fanout: done,
                        channel: ChannelView {
                            queued: self.channel.queued.push(event),
                            ..self.channel
                        },
                        arrivals,
                        ..self
                    }
                } else {
                    PipelineView {
                        fanout: FanOutView { held: self.fanout.held + 1, ..done },
                        channel: ChannelView {
                            held: self.channel.held.push(event),
                            ..self.channel
                        },
                        arrivals,
                        ..self
                    }
                }
            },
        }
    }

    /// The number of events that the next write holds.
    pub open spec fn write_size(self) -> nat {
        smaller(self.output.limit, self.channel.pending().len())
    }

    /// The action that the pipeline asks for next: a further lookup while a
    /// worker is free and a transaction is left; else a write of what is
    /// queued; else a wait, while lookups are in flight; else the end.
    pub open spec fn poll_action(self) -> ActionView {
        if self.fanout.can_start() {
            ActionView::RequestReceipt {
                index: self.fanout.started as int,
                hash: self.fanout.hashes[self.fanout.started as int],
            }
        } else if self.channel.queued.len() > 0 {
            ActionView::Write(batch_text(self.channel.pending().take(self.write_size() as int)))
        } else if self.fanout.in_flight().len() > 0 {
            ActionView::AwaitReceipt
        } else {
            ActionView::Finished
        }
    }

    /// The state after the pipeline was asked for its next action.
    pub open spec fn after_poll(self) -> PipelineView {
        if self.fanout.can_start() {
            PipelineView {
                fanout: FanOutView {
                    states: self.fanout.states.update(
                        self.fanout.started as int,
                        LookupState::InFlight,
                    ),
                    started: self.fanout.started + 1,
                    ..self.fanout
                },
                ..self
            }
        } else if self.channel.queued.len() > 0 {
            let size = self.write_size() as int;
            let rest = self.channel.pending().skip(size);
            let room = smaller(rest.len(), self.channel.capacity) as int;
            PipelineView {
                fanout: FanOutView { held: (rest.len() - room) as nat, ..self.fanout },
                channel: ChannelView {
                    queued: rest.take(room),
                    held: rest.skip(room),
                    ..self.channel
                },
                output: OutputView {
                    written: self.output.written + self.channel.pending().take(size),
                    ..self.output
                },
                ..self
            }
        } else if self.fanout.in_flight().len() > 0 {
            self
        } else {
            PipelineView { channel: ChannelView { closed: true, ..self.channel }, ..self }
        }
    }
}

/// The pipeline for a block before anything was requested.
pub open spec fn initial_pipeline(
    hashes: Seq<Seq<u8>>,
    block_timestamp_ms: nat,
    cap: nat,
    capacity: nat,
    limit: nat,
) -> PipelineView {
    PipelineView {
        fanout: FanOutView {
            hashes,
            states: Seq::new(hashes.len(), |i: int| LookupState::Waiting),
            cap,
            started: 0,
            held: 0,
        },
        channel: ChannelView { queued: Seq::empty(), held: Seq::empty(), capacity, closed: false },
        output: OutputView { batch: Seq::empty(), limit, written: Seq::empty() },
        block_timestamp_ms,
        arrivals: Seq::empty(),
    }
}

/// A pipeline starts in a state that meets the invariant.
pub proof fn lemma_initial_wf(
    hashes: Seq<Seq<u8>>,
    block_timestamp_ms: nat,
    cap: nat,
    capacity: nat,
    limit: nat,
)
    requires
        cap > 0,
        capacity > 0,
        limit > 0,
        block_timestamp_ms <= u64::MAX,
    ensures
        initial_pipeline(hashes, block_timestamp_ms, cap, capacity, limit).wf(),
{
    let p = initial_pipeline(hashes, block_timestamp_ms, cap, capacity, limit);
    assert(p.fanout.in_flight() =~= Set::<int>::empty());
    assert(p.output.written + p.channel.pending() =~= p.events());
}

/// One more arrival adds its event, where it names a created contract, and
/// nothing otherwise.
pub proof fn lemma_produced_push(arrivals: Seq<Arrival>, arrival: Arrival, block_timestamp_ms: nat)
    ensures
        produced(arrivals.push(arrival), block_timestamp_ms) == match arrival.created {
            Some(address) => produced(arrivals, block_timestamp_ms).push(
                event_of(address, block_timestamp_ms, arrival.observed_at_ms),
            ),
            None => produced(arrivals, block_timestamp_ms),
        },
        creation_count(arrivals.push(arrival)) == creation_count(arrivals)
            + if arrival.created is Some {
            1nat
        } else {
            0nat
        },
{
    assert(arrivals.push(arrival).drop_last() =~= arrivals);
}

/// There are as many events as arrivals that name a created contract, and so
/// no more events than arrivals.
pub proof fn lemma_produced_len(arrivals: Seq<Arrival>, block_timestamp_ms: nat)
    ensures
        produced(arrivals, block_timestamp_ms).len() == creation_count(arrivals),
        creation_count(arrivals) <= arrivals.len(),
    decreases arrivals.len(),
{
    if arrivals.len() > 0 {
        lemma_produced_len(arrivals.drop_last(), block_timestamp_ms);
    }
}

/// Taking in the result of a lookup that is in flight keeps the invariant.
pub proof fn lemma_arrival_keeps_wf(
    p: PipelineView,
    index: int,
    created: Option<Seq<u8>>,
    observed_at_ms: nat,
)
    requires
        p.wf(),
        p.fanout.awaits(index),
    ensures
        p.after_arrival(index, created, observed_at_ms).wf(),
        !p.channel.closed,
{
    let q = p.after_arrival(index, created, observed_at_ms);
    let arrival = Arrival { index, created, observed_at_ms };
    assert(p.fanout.in_flight().contains(index));
    assert(q.fanout.in_flight() =~= p.fanout.in_flight().remove(index));
    lemma_produced_push(p.arrivals, arrival, p.block_timestamp_ms);
    assert(q.output.written + q.channel.pending() =~= q.events());
    assert(!arrived(p.arrivals, index));
    assert forall|k: int| 0 <= k < q.fanout.states.len() implies (#[trigger] q.fanout.states[k]
        == LookupState::Done <==> arrived(q.arrivals, k)) by {
        if k == index {
            assert(q.arrivals[p.arrivals.len() as int].index == index);
        } else {
            assert(q.fanout.states[k] == p.fanout.states[k]);
            if arrived(p.arrivals, k) {
                let i = choose|i: int|
                    0 <= i < p.arrivals.len() && #[trigger] p.arrivals[i].index == k;
                assert(q.arrivals[i].index == k);
            }
            if arrived(q.arrivals, k) {
                let i = choose|i: int|
                    0 <= i < q.arrivals.len() && #[trigger] q.arrivals[i].index == k;
                assert(i < p.arrivals.len());
                assert(p.arrivals[i].index == k);
            }
        }
    }
    assert forall|i: int, j: int| 0 <= i < j < q.arrivals.len() implies q.arrivals[i].index
        != q.arrivals[j].index by {
        if j == p.arrivals.len() {
            if p.arrivals[i].index == index {
                assert(arrived(p.arrivals, index));
            }
        }
    }
}

/// Asking for the next action keeps the invariant.
pub proof fn lemma_poll_keeps_wf(p: PipelineView)
    requires
        p.wf(),
    ensures
        p.after_poll().wf(),
{
    let q = p.after_poll();
    if p.fanout.can_start() {
        let next = p.fanout.started as int;
        assert(p.fanout.states[next] == LookupState::Waiting);
        assert(!p.fanout.in_flight().contains(next));
        assert(q.fanout.in_flight() =~= p.fanout.in_flight().insert(next));
        assert forall|k: int| 0 <= k < q.fanout.states.len() implies (#[trigger] q.fanout.states[k]
            == LookupState::Done <==> arrived(q.arrivals, k)) by {
            if k != next {
                assert(q.fanout.states[k] == p.fanout.states[k]);
            }
        }
    } else if p.channel.queued.len() > 0 {
        let size = p.write_size() as int;
        let pending = p.channel.pending();
        assert(q.fanout.in_flight() =~= p.fanout.in_flight());
        assert(q.channel.pending() =~= pending.skip(size));
        assert(pending =~= pending.take(size) + pending.skip(size));
        assert(q.output.written + q.channel.pending() =~= p.output.written + pending);
    } else if p.fanout.in_flight().len() > 0 {
    } else {
        assert(q.fanout.in_flight() =~= p.fanout.in_flight());
    }
}

/// At no time does a pipeline have more receipt lookups in flight than its
/// cap allows; a worker that waits for room in the channel counts against
/// the cap as well.
pub proof fn lemma_lookups_within_cap(p: PipelineView)
    requires
        p.wf(),
    ensures
        p.fanout.in_flight().len() <= p.fanout.cap,
        p.fanout.in_flight().len() + p.channel.held.len() <= p.fanout.cap,
{
}

/// The receipt result of one transaction gives rise to exactly one event
/// where it names a created contract, and to none otherwise; and once it is
/// taken in, a further result for the same transaction is refused.
pub proof fn lemma_one_event_per_creation(
    p: PipelineView,
    index: int,
    created: Option<Seq<u8>>,
    observed_at_ms: nat,
)
    requires
        p.wf(),
        p.fanout.awaits(index),
    ensures
        p.after_arrival(index, created, observed_at_ms).events() == match created {
            Some(address) => p.events().push(
                event_of(address, p.block_timestamp_ms, observed_at_ms),
            ),
            None => p.events(),
        },
        !p.after_arrival(index, created, observed_at_ms).fanout.awaits(index),
{
    lemma_produced_push(
        p.arrivals,
        Arrival { index, created, observed_at_ms },
        p.block_timestamp_ms,
    );
}

/// No two of the results taken in belong to the same transaction, and there
/// are exactly as many events as results that name a created contract.
pub proof fn lemma_events_match_creations(p: PipelineView)
    requires
        p.wf(),
    ensures
        forall|i: int, j: int|
            0 <= i < j < p.arrivals.len() ==> p.arrivals[i].index != p.arrivals[j].index,
        p.events().len() == creation_count(p.arrivals),
        p.events().len() <= p.arrivals.len() <= p.fanout.states.len(),
{
    lemma_produced_len(p.arrivals, p.block_timestamp_ms);
}

/// Asking for the next action neither makes nor loses an event, and the
/// text of a write holds the records of exactly the events that the write
/// moves from the channel into the output.
pub proof fn lemma_poll_conserves_events(p: PipelineView)
    requires
        p.wf(),
    ensures
        p.after_poll().events() == p.events(),
        p.after_poll().output.written + p.after_poll().channel.pending() == p.output.written
            + p.channel.pending(),
        p.poll_action() matches ActionView::Write(text) ==> exists|batch: Seq<EventView>|
            #![auto]
            text == batch_text(batch) && batch.len() > 0 && p.after_poll().output.written
                == p.output.written + batch,
{
    lemma_poll_keeps_wf(p);
    if !p.fanout.can_start() && p.channel.queued.len() > 0 {
        let batch = p.channel.pending().take(p.write_size() as int);
        assert(batch_text(batch) == batch_text(batch) && batch.len() > 0
            && p.after_poll().output.written == p.output.written + batch);
    }
}

/// The channel loses no event and keeps their order: what was written,
/// followed by what waits in the channel, is every event produced so far.
pub proof fn lemma_no_event_lost(p: PipelineView)
    requires
        p.wf(),
    ensures
        p.output.written + p.channel.pending() == p.events(),
        p.output.written.len() + p.channel.queued.len() + p.channel.held.len()
            == creation_count(p.arrivals),
{
    lemma_produced_len(p.arrivals, p.block_timestamp_ms);
    assert((p.output.written + p.channel.pending()).len() == p.events().len());
}

/// The pipeline reports the end only when it has finished, and it never
/// waits for a receipt when none is in flight.
pub proof fn lemma_end_is_reached(p: PipelineView)
    requires
        p.wf(),
    ensures
        p.poll_action() is Finished ==> p.after_poll().finished() && p.after_poll().channel.closed,
        p.poll_action() is AwaitReceipt ==> p.fanout.in_flight().len() > 0,
        p.finished() ==> p.poll_action() is Finished,
{
    lemma_poll_keeps_wf(p);
}

/// The pipeline comes to its end: every request, every result taken in and
/// every write lessens the work that is left, and none is left exactly when
/// the pipeline has finished.
pub proof fn lemma_every_step_makes_progress(
    p: PipelineView,
    index: int,
    created: Option<Seq<u8>>,
    observed_at_ms: nat,
)
    requires
        p.wf(),
    ensures
        p.work_left() == 0 <==> p.finished(),
        p.poll_action() is RequestReceipt || p.poll_action() is Write ==> p.after_poll().work_left()
            < p.work_left(),
        p.fanout.awaits(index) ==> p.after_arrival(index, created, observed_at_ms).work_left()
            < p.work_left(),
{
    lemma_poll_keeps_wf(p);
    if p.fanout.can_start() {
        let next = p.fanout.started as int;
        assert(!p.fanout.in_flight().contains(next));
        assert(p.after_poll().fanout.in_flight() =~= p.fanout.in_flight().insert(next));
    } else if p.channel.queued.len() > 0 {
        assert(p.after_poll().fanout.in_flight() =~= p.fanout.in_flight());
        assert(p.after_poll().channel.pending() =~= p.channel.pending().skip(
            p.write_size() as int,
        ));
    }
    if p.fanout.awaits(index) {
        let q = p.after_arrival(index, created, observed_at_ms);
        assert(p.fanout.in_flight().contains(index));
        assert(q.fanout.in_flight() =~= p.fanout.in_flight().remove(index));
    }
    if p.work_left() == 0 {
        assert(p.fanout.in_flight().len() == 0);
    }
}

/// In a finished pipeline the result of every transaction was taken in
/// exactly once, and the output has written exactly the events of the
/// results that name a created contract, in the order of arrival.
pub proof fn lemma_finished_wrote_every_creation(p: PipelineView)
    requires
        p.wf(),
        p.finished(),
    ensures
        p.arrivals.len() == p.fanout.states.len(),
        forall|k: int| 0 <= k < p.fanout.states.len() ==> arrived(p.arrivals, k),
        p.output.written == p.events(),
        p.output.written.len() == creation_count(p.arrivals),
        creation_count(p.arrivals) <= p.fanout.states.len(),
{
    lemma_produced_len(p.arrivals, p.block_timestamp_ms);
    assert(p.channel.pending() =~= Seq::<EventView>::empty());
    assert(p.output.written + p.channel.pending() =~= p.output.written);
    assert(p.fanout.in_flight() =~= Set::<int>::empty());
    assert forall|k: int| 0 <= k < p.fanout.states.len() implies arrived(p.arrivals, k) by {
        assert(!p.fanout.in_flight().contains(k));
        assert(p.fanout.states[k] != LookupState::Waiting);
        assert(p.fanout.states[k] == LookupState::Done);
    }
}

/// The pipeline of one block.
pub struct BlockPipeline {
    fanout: FanOut,
    channel: EventChannel,
    output: OutputStage,
    block_timestamp_ms: u64,
    arrivals: Ghost<Seq<Arrival>>,
}

impl View for BlockPipeline {
    type V = PipelineView;

    closed spec fn view(&self) -> PipelineView {
        PipelineView {
            fanout: self.fanout@,
            channel: self.channel@,
            output: self.output@,
            block_timestamp_ms: self.block_timestamp_ms as nat,
            arrivals: self.arrivals@,
        }
    }
}

impl BlockPipeline {
    /// The invariant of the pipeline.
    pub closed spec fn wf(&self) -> bool {
        &&& self.fanout.wf()
        &&& self@.wf()
    }

    /// A well-formed pipeline has a well-formed view.
    pub proof fn lemma_wf_view(&self)
        requires
            self.wf(),
        ensures
            self@.wf(),
    {
    }

    /// A pipeline for the transactions with the given hashes, of a block
    /// stamped `block_timestamp_ms`: at most `cap` workers busy at once, a
    /// channel of `capacity` events, writes of at most `limit` records. None
    /// where one of the three is zero.
    pub fn new(
        hashes: Vec<TxHash>,
        block_timestamp_ms: u64,
        cap: usize,
        capacity: usize,
        limit: usize,
    ) -> (pipeline: Option<Self>)
        ensures
            pipeline is Some <==> cap > 0 && capacity > 0 && limit > 0,
            pipeline is Some ==> pipeline->0.wf() && pipeline->0@ == initial_pipeline(
                hash_views(hashes@),
                block_timestamp_ms as nat,
                cap as nat,
                capacity as nat,
                limit as nat,
            ),
    {
        let ghost hashes_view = hash_views(hashes@);
        let fanout = match FanOut::new(hashes, cap) {
            Some(fanout) => fanout,
            None => {
                return None;
            },
        };
        let channel = match EventChannel::new(capacity) {
            Some(channel) => channel,
            None => {
                return None;
            },
        };
        let output = match OutputStage::new(limit) {
            Some(output) => output,
            None => {
                return None;
            },
        };
        proof {
            lemma_initial_wf(
                hashes_view,
                block_timestamp_ms as nat,
                cap as nat,
                capacity as nat,
                limit as nat,
            );
        }
        Some(
            BlockPipeline {
                fanout,
                channel,
                output,
                block_timestamp_ms,
                arrivals: Ghost(Seq::empty()),
            },
        )
    }

    /// A pipeline for every transaction of `block` under the given settings.
    /// None where the block's timestamp in milliseconds does not fit in 64
    /// bits.
    pub fn for_block(block: &Block, config: &WatcherConfig) -> (pipeline: Option<Self>)
        ensures
            pipeline is Some <==> millis_of_seconds(block.timestamp as nat) <= u64::MAX,
            pipeline is Some ==> pipeline->0.wf() && pipeline->0@ == initial_pipeline(
                hashes_of(block.transactions@),
                millis_of_seconds(block.timestamp as nat),
                config.spec_receipt_concurrency() as nat,
                config.spec_channel_capacity() as nat,
                OUTPUT_BATCH_LIMIT as nat,
            ),
    {
        let block_timestamp_ms = match block.timestamp_ms() {
            Some(ms) => ms,
            None => {
                return None;
            },
        };
        let hashes = block.transaction_hashes();
        assert(hash_views(hashes@) =~= hashes_of(block.transactions@));
        Self::new(
            hashes,
            block_timestamp_ms,
            config.receipt_concurrency(),
            config.channel_capacity(),
            OUTPUT_BATCH_LIMIT,
        )
    }

    /// Takes in the result of the receipt lookup for the transaction at
    /// `index`, observed at `observed_at_ms`. A result for a lookup that is
    /// not in flight is refused and changes nothing. Otherwise the lookup is
    /// done, and where the receipt names a created contract, its event enters
    /// the channel, or waits with its worker where the channel is full.
    pub fn receipt_arrived_at(
        &mut self,
        index: usize,
        lookup: &ReceiptLookup,
        observed_at_ms: u64,
    ) -> (accepted: bool)
        requires
            old(self).wf(),
        ensures
            final(self).wf(),
            accepted == old(self)@.fanout.awaits(index as int),
            !accepted ==> final(self)@ == old(self)@,
            accepted ==> final(self)@ == old(self)@.after_arrival(
                index as int,
                created_bytes(*lookup),
                observed_at_ms as nat,
            ),
    {
        if !self.fanout.awaits_result(index) {
            return false;
        }
        proof {
            lemma_arrival_keeps_wf(
                self@,
                index as int,
                created_bytes(*lookup),
                observed_at_ms as nat,
            );
        }
        match lookup.created_contract() {
            None => {
                self.fanout.complete(index, false);
            },
            Some(address) => {
                let event = ContractCreationEvent::new(
                    address,
                    self.block_timestamp_ms,
                    observed_at_ms,
                );
                match self.channel.send(event) {
                    SendOutcome::Held => {
                        self.fanout.complete(index, true);
                    },
                    _ => {
                        self.fanout.complete(index, false);
                    },
                }
            },
        }
        self.arrivals = Ghost(
            self.arrivals@.push(
                Arrival {
                    index: index as int,
                    created: created_bytes(*lookup),
                    observed_at_ms: observed_at_ms as nat,
                },
            ),
        );
        assert(self@ == old(self)@.after_arrival(
            index as int,
            created_bytes(*lookup),
            observed_at_ms as nat,
        ));
        true
    }

    /// Takes in the result of the receipt lookup for the transaction at
    /// `index`, observed now by the wall clock. Whatever the clock reads,
    /// this is [`BlockPipeline::receipt_arrived_at`] at that reading.
    pub fn receipt_arrived(&mut self, index: usize, lookup: &ReceiptLookup) -> (accepted: bool)
        requires
            old(self).wf(),
        ensures
            final(self).wf(),
            accepted == old(self)@.fanout.awaits(index as int),
            !accepted ==> final(self)@ == old(self)@,
            accepted ==> final(self)@ == old(self)@.after_arrival(
                index as int,
                created_bytes(*lookup),
                final(self)@.arrivals.last().observed_at_ms,
            ),
    {
        self.receipt_arrived_at(index, lookup, wall_clock_ms())
    }

    /// The next action, by [`PipelineView::poll_action`], and the state moved
    /// on by [`PipelineView::after_poll`].
    pub fn poll(&mut self) -> (action: PipelineAction)
        requires
            old(self).wf(),
        ensures
            final(self).wf(),
            action@ == old(self)@.poll_action(),
            final(self)@ == old(self)@.after_poll(),
    {
        proof {
            lemma_poll_keeps_wf(self@);
        }
        match self.fanout.start_next() {
            Some((index, hash)) => {
                return PipelineAction::RequestReceipt { index, hash };
            },
            None => {},
        }
        if !self.channel.is_empty() {
            let ghost pending = self.channel@.pending();
            assert(pending.take(0) =~= Seq::<EventView>::empty());
            assert(pending.skip(0) =~= pending);
            loop
                invariant
                    old(self).wf(),
                    !old(self)@.fanout.can_start(),
                    old(self)@.channel.queued.len() > 0,
                    pending == old(self)@.channel.pending(),
                    self.fanout.wf(),
                    self.channel@.wf(),
                    self.output@.wf(),
                    self.channel@.queued.len() > 0,
                    self.output@.batch.len() < pending.len(),
                    self.output@.batch == pending.take(self.output@.batch.len() as int),
                    self.channel@.pending() == pending.skip(self.output@.batch.len() as int),
                    self.output@.written == old(self)@.output.written,
                    self.output@.limit == old(self)@.output.limit,
                    self.channel@.capacity == old(self)@.channel.capacity,
                    self.channel@.closed == old(self)@.channel.closed,
                    self.fanout@ == (FanOutView {
                        held: self.channel@.held.len(),
                        ..old(self)@.fanout
                    }),
                    self.block_timestamp_ms == old(self).block_timestamp_ms,
                    self.arrivals@ == old(self).arrivals@,
                decreases self.output@.limit - self.output@.batch.len(),
            {
                let ghost taken = self.output@.batch.len() as int;
                let received = self.channel.recv();
                match received {
                    Received::Event { event, released } => {
                        if released {
                            self.fanout.release();
                        }
                        let queue_empty = self.channel.is_empty();
                        let write = self.output.accept(event, queue_empty);
                        proof {
                            assert(event@ == pending[taken]);
                            assert(pending.take(taken).push(pending[taken]) =~= pending.take(
                                taken + 1,
                            ));
                            assert(pending.skip(taken).drop_first() =~= pending.skip(taken + 1));
                        }
                        match write {
                            Some(text) => {
                                proof {
                                    let size = old(self)@.write_size() as int;
                                    assert(size == taken + 1);
                                    let rest = pending.skip(size);
                                    let room = smaller(
                                        rest.len(),
                                        old(self)@.channel.capacity,
                                    ) as int;
                                    let goal = old(self)@.after_poll();
                                    lemma_poll_keeps_wf(old(self)@);
                                    assert(self.channel@.queued =~= rest.take(room));
                                    assert(self.channel@.held =~= rest.skip(room));
                                    assert(self.channel@ == goal.channel);
                                    assert(self.output@.batch =~= old(self)@.output.batch);
                                    assert(self.output@.written == goal.output.written);
                                    assert(self.output@ == goal.output);
                                    assert(self.fanout@ == goal.fanout);
                                    assert(self@ == goal);
                                }
                                return PipelineAction::Write(text);
                            },
                            None => {},
                        }
                    },
                    _ => {
                        return PipelineAction::AwaitReceipt;
                    },
                }
            }
        }
        if self.fanout.in_flight() > 0 {
            return PipelineAction::AwaitReceipt;
        }
        self.channel.close();
        PipelineAction::Finished
    }

    /// The number of receipt lookups in flight, which never exceeds the cap.
    pub fn in_flight(&self) -> (n: usize)
        requires
            self.wf(),
        ensures
            n == self@.fanout.in_flight().len(),
            n <= self@.fanout.cap,
    {
        self.fanout.in_flight()
    }

    /// Whether every lookup is done and every event is written.
    pub fn is_finished(&self) -> (finished: bool)
        requires
            self.wf(),
        ensures
            finished == self@.finished(),
    {
        self.fanout.is_finished() && self.channel.is_empty() && self.channel.held_senders() == 0
    }

    /// The block's timestamp in milliseconds.
    pub fn block_timestamp_ms(&self) -> (ms: u64)
        ensures
            ms == self@.block_timestamp_ms,
    {
        self.block_timestamp_ms
    }
}

/// How the fetch of a block with its transactions ended.
#[derive(Clone, Debug, PartialEq, Eq)]
pub enum BlockFetch {
    /// The node returned the block.
    Found(Block),
    /// The node does not have the block yet.
    Absent,
    /// The request failed.
    Failed,
}

/// Why a block is passed over.
#[derive(Clone, Copy, Debug, PartialEq, Eq, Structural)]
pub enum BlockSkip {
    /// The node does not have the block yet: there is nothing to process.
    Absent,
    /// The fetch failed.
    FetchFailed,
    /// The block's timestamp in milliseconds does not fit in 64 bits.
    TimestampOutOfRange,
}

/// The reason for which the result of a fetch is passed over, if there is
/// one.
pub open spec fn skip_of(fetch: BlockFetch) -> Option<BlockSkip> {
    match fetch {
        BlockFetch::Absent => Some(BlockSkip::Absent),
        BlockFetch::Failed => Some(BlockSkip::FetchFailed),
        BlockFetch::Found(block) => if millis_of_seconds(block.timestamp as nat) <= u64::MAX {
            None
        } else {
            Some(BlockSkip::TimestampOutOfRange)
        },
    }
}

/// The hashes of the transactions, in order.
pub open spec fn hashes_of(transactions: Seq<Transaction>) -> Seq<Seq<u8>> {
    transactions.map_values(|t: Transaction| t.hash@)
}

/// Decides what follows the fetch of a block: a pipeline over all of its
/// transactions where the block was found, and otherwise the reason for
/// which this one block is passed over. Other blocks are not affected.
pub fn start_block(fetch: &BlockFetch, config: &WatcherConfig) -> (start: Result<
    BlockPipeline,
    BlockSkip,
>)
    ensures
        match skip_of(*fetch) {
            Some(skip) => start is Err && start->Err_0 == skip,
            None => start is Ok && start->Ok_0.wf() && start->Ok_0@ == initial_pipeline(
                hashes_of(fetch->Found_0.transactions@),
                millis_of_seconds(fetch->Found_0.timestamp as nat),
                config.spec_receipt_concurrency() as nat,
                config.spec_channel_capacity() as nat,
                OUTPUT_BATCH_LIMIT as nat,
            ),
        },
{
    match fetch {
        BlockFetch::Absent => Err(BlockSkip::Absent),
        BlockFetch::Failed => Err(BlockSkip::FetchFailed),
        BlockFetch::Found(block) => match BlockPipeline::for_block(block, config) {
            Some(pipeline) => Ok(pipeline),
            None => Err(BlockSkip::TimestampOutOfRange),
        },
    }
}

} // verus!

//! The event channel: a bounded first-in-first-out queue between the stage
//! that finds creations and the stage that writes them. A sender that finds
//! the queue full is held back until room is made; no event is dropped.

use crate::event::{ContractCreationEvent, EventView};
use crate::record::{lemma_views_push, views_of};
use std::collections::VecDeque;
use vstd::prelude::*;

verus! {

/// The mathematical content of an [`EventChannel`].
pub struct ChannelView {
    /// The events in the queue, oldest first.
    pub queued: Seq<EventView>,
    /// The events of the senders that are held back, oldest first.
    pub held: Seq<EventView>,
    pub capacity: nat,
    pub closed: bool,
}

impl ChannelView {
    /// The queue keeps to its capacity, and a sender is held back only while
    /// the queue is full.
    pub open spec fn wf(self) -> bool {
        &&& 0 < self.capacity
        &&& self.queued.len() <= self.capacity
        &&& self.held.len() > 0 ==> self.queued.len() == self.capacity
    }

    /// Every event that was sent and not yet received, in the order of
    /// sending.
    pub open spec fn pending(self) -> Seq<EventView> {
        self.queued + self.held
    }
}

/// How a send ended.
#[derive(Clone, Copy, Debug, PartialEq, Eq)]
pub enum SendOutcome {
    /// The event is in the queue.
    Queued,
    /// The queue is full: the sender is held back with its event, which
    /// enters the queue as soon as a receive makes room.
    Held,
    /// The channel is closed: the event was not accepted.
    Closed,
}

/// What a receive found.
#[derive(Clone, Copy, Debug, PartialEq, Eq)]
pub enum Received {
    /// The oldest event. `released` tells whether the receive let a sender
    /// that was held back go on.
    Event { event: ContractCreationEvent, released: bool },
    /// Nothing is queued, and the channel is still open.
    Empty,
    /// Nothing is queued, and nothing more will come.
    Closed,
}

/// A bounded queue of events with backpressure.
pub struct EventChannel {
    queue: VecDeque<ContractCreationEvent>,
    held: VecDeque<ContractCreationEvent>,
    capacity: usize,
    closed: bool,
}

impl View for EventChannel {
    type V = ChannelView;

    closed spec fn view(&self) -> ChannelView {
        ChannelView {
            queued: views_of(self.queue@),
            held: views_of(self.held@),
            capacity: self.capacity as nat,
            closed: self.closed,
        }
    }
}

impl EventChannel {
    /// An open, empty channel that queues up to `capacity` events; none for a
    /// capacity of zero.
    pub fn new(capacity: usize) -> (channel: Option<Self>)
        ensures
            channel is Some <==> capacity > 0,
            channel is Some ==> channel->0@ == (ChannelView {
                queued: Seq::empty(),
                held: Seq::empty(),
                capacity: capacity as nat,
                closed: false,
            }) && channel->0@.wf(),
    {
        if capacity == 0 {
            return None;
        }
        let channel = EventChannel {
            queue: VecDeque::new(),
            held: VecDeque::new(),
            capacity,
            closed: false,
        };
        assert(channel@.queued =~= Seq::empty());
        assert(channel@.held =~= Seq::empty());
        Some(channel)
    }

    /// Sends an event. An open channel always takes it: into the queue while
    /// there is room, else with its sender held back. A closed channel
    /// refuses it and is unchanged.
    pub fn send(&mut self, event: ContractCreationEvent) -> (outcome: SendOutcome)
        requires
            old(self)@.wf(),
        ensures
            final(self)@.wf(),
            final(self)@.capacity == old(self)@.capacity,
            final(self)@.closed == old(self)@.closed,
            old(self)@.closed ==> outcome == SendOutcome::Closed && final(self)@ == old(self)@,
            !old(self)@.closed && old(self)@.queued.len() < old(self)@.capacity ==> outcome
                == SendOutcome::Queued && final(self)@.queued == old(self)@.queued.push(event@)
                && final(self)@.held == old(self)@.held,
            !old(self)@.closed && old(self)@.queued.len() == old(self)@.capacity ==> outcome
                == SendOutcome::Held && final(self)@.held == old(self)@.held.push(event@)
                && final(self)@.queued == old(self)@.queued,
            !old(self)@.closed ==> final(self)@.pending() == old(self)@.pending().push(event@),
    {
        if self.closed {
            return SendOutcome::Closed;
        }
        if self.queue.len() < self.capacity {
            proof {
                lemma_views_push(self.queue@, event);
            }
            self.queue.push_back(event);
            assert(self@.pending() =~= old(self)@.pending().push(event@));
            SendOutcome::Queued
        } else {
            proof {
                lemma_views_push(self.held@, event);
            }
            self.held.push_back(event);
            assert(self@.pending() =~= old(self)@.pending().push(event@));
            SendOutcome::Held
        }
    }

    /// Receives the oldest event, if there is one. Where a sender was held
    /// back, its event takes the freed place in the queue.
    pub fn recv(&mut self) -> (received: Received)
        requires
            old(self)@.wf(),
        ensures
            final(self)@.wf(),
            final(self)@.capacity == old(self)@.capacity,
            final(self)@.closed == old(self)@.closed,
            old(self)@.queued.len() == 0 ==> final(self)@ == old(self)@,
            old(self)@.queued.len() == 0 && old(self)@.closed ==> received == Received::Closed,
            old(self)@.queued.len() == 0 && !old(self)@.closed ==> received == Received::Empty,
            old(self)@.queued.len() > 0 ==> received == (Received::Event {
                event: received->event,
                released: old(self)@.held.len() > 0,
            }),
            old(self)@.queued.len() > 0 ==> received->event@ == old(self)@.pending().first(),
            old(self)@.queued.len() > 0 ==> final(self)@.pending()
                == old(self)@.pending().drop_first(),
            old(self)@.queued.len() > 0 && old(self)@.held.len() > 0 ==> final(self)@.held
                == old(self)@.held.drop_first(),
            old(self)@.queued.len() > 0 && old(self)@.held.len() == 0 ==> final(self)@.held
                == old(self)@.held,
    {
        let front = self.queue.pop_front();
        match front {
            None => {
                assert(self@ == old(self)@);
                if self.closed {
                    Received::Closed
                } else {
                    Received::Empty
                }
            },
            Some(event) => {
                let waiting = self.held.pop_front();
                let released = match waiting {
                    None => false,
                    Some(next) => {
                        proof {
                            lemma_views_push(self.queue@, next);
                        }
                        self.queue.push_back(next);
                        true
                    },
                };
                assert(self@.pending() =~= old(self)@.pending().drop_first());
                Received::Event { event, released }
            },
        }
    }

    /// Closes the sending side: later sends are refused, while queued events
    /// and those of senders held back are still delivered.
    pub fn close(&mut self)
        ensures
            final(self)@ == (ChannelView { closed: true, ..old(self)@ }),
    {
        self.closed = true;
    }

    /// The number of queued events.
    pub fn len(&self) -> (n: usize)
        ensures
            n == self@.queued.len(),
    {
        self.queue.len()
    }

    /// Whether nothing is queued.
    pub fn is_empty(&self) -> (empty: bool)
        ensures
            empty == (self@.queued.len() == 0),
    {
        self.queue.len() == 0
    }

    /// The number of senders that are held back.
    pub fn held_senders(&self) -> (n: usize)
        ensures
            n == self@.held.len(),
    {
        self.held.len()
    }

    /// The most events the queue holds.
    pub fn capacity(&self) -> (capacity: usize)
        ensures
            capacity == self@.capacity,
    {
        self.capacity
    }

    /// Whether the sending side is closed.
    pub fn is_closed(&self) -> (closed: bool)
        ensures
            closed == self@.closed,
    {
        self.closed
    }
}

} // verus!

//! The receipt fan-out: which receipt lookups run, under a cap on how many
//! workers are busy at once. A worker is busy while its lookup is in flight,
//! and stays busy while it holds an event that waits for room in the channel.

use crate::model::{hash_views, TxHash};
use vstd::prelude::*;

verus! {

/// Where the lookup of one transaction stands.
#[derive(Clone, Copy, Debug, PartialEq, Eq, Structural)]
pub enum LookupState {
    /// Not yet requested.
    Waiting,
    /// Requested, and no result yet.
    InFlight,
    /// The result came in.
    Done,
}

/// The mathematical content of a [`FanOut`].
pub struct FanOutView {
    /// The hashes to look up, in block order.
    pub hashes: Seq<Seq<u8>>,
    /// The state of each lookup.
    pub states: Seq<LookupState>,
    /// The most workers that are busy at once.
    pub cap: nat,
    /// The number of lookups requested so far; they are requested in order.
    pub started: nat,
    /// The number of workers that hold an event for which the channel has no
    /// room yet.
    pub held: nat,
}

impl FanOutView {
    /// The positions of the lookups that are in flight.
    pub open spec fn in_flight(self) -> Set<int> {
        Set::new(|i: int| 0 <= i < self.states.len() && self.states[i] == LookupState::InFlight)
    }

    /// The number of busy workers.
    pub open spec fn busy(self) -> nat {
        self.in_flight().len() + self.held
    }

    /// The lookups are requested in order, and the busy workers keep to the
    /// cap.
    pub open spec fn wf(self) -> bool {
        &&& 0 < self.cap
        &&& self.states.len() == self.hashes.len()
        &&& self.started <= self.states.len()
        &&& forall|i: int|
            0 <= i < self.states.len() ==> (#[trigger] self.states[i] == LookupState::Waiting
                <==> i >= self.started)
        &&& self.in_flight().finite()
        &&& self.busy() <= self.cap
    }

    /// Whether a further lookup may be requested now.
    pub open spec fn can_start(self) -> bool {
        self.started < self.states.len() && self.busy() < self.cap
    }

    /// Whether every lookup is done and no worker is busy.
    pub open spec fn finished(self) -> bool {
        self.started == self.states.len() && self.busy() == 0
    }

    /// Whether the lookup at `index` is in flight.
    pub open spec fn awaits(self, index: int) -> bool {
        0 <= index < self.states.len() && self.states[index] == LookupState::InFlight
    }
}

/// At no time are more lookups in flight than the cap allows, nor more
/// workers busy.
pub proof fn lemma_in_flight_within_cap(f: FanOutView)
    requires
        f.wf(),
    ensures
        f.in_flight().len() <= f.cap,
        f.in_flight().len() + f.held <= f.cap,
{
}

/// The scheduler of a block's receipt lookups.
pub struct FanOut {
    hashes: Vec<TxHash>,
    states: Vec<LookupState>,
    cap: usize,
    started: usize,
    in_flight: usize,
    held: usize,
}

impl View for FanOut {
    type V = FanOutView;

    closed spec fn view(&self) -> FanOutView {
        FanOutView {
            hashes: hash_views(self.hashes@),
            states: self.states@,
            cap: self.cap as nat,
            started: self.started as nat,
            held: self.held as nat,
        }
    }
}

impl FanOut {
    /// The invariant of the scheduler.
    pub closed spec fn wf(&self) -> bool {
        &&& self@.wf()
        &&& self.in_flight == self@.in_flight().len()
    }

    /// A well-formed scheduler has a well-formed view.
    pub proof fn lemma_wf_view(&self)
        requires
            self.wf(),
        ensures
            self@.wf(),
    {
    }

    /// A scheduler for the given hashes with nothing requested yet; none for
    /// a cap of zero.
    pub fn new(hashes: Vec<TxHash>, cap: usize) -> (fanout: Option<Self>)
        ensures
            fanout is Some <==> cap > 0,
            fanout is Some ==> fanout->0.wf() && fanout->0@ == (FanOutView {
                hashes: hash_views(hashes@),
                states: Seq::new(hashes@.len(), |i: int| LookupState::Waiting),
                cap: cap as nat,
                started: 0,
                held: 0,
            }),
    {
        if cap == 0 {
            return None;
        }
        let mut states: Vec<LookupState> = Vec::new();
        let mut i: usize = 0;
        while i < hashes.len()
            invariant
                i <= hashes.len(),
                states@ == Seq::new(i as nat, |j: int| LookupState::Waiting),
            decreases hashes.len() - i,
        {
            states.push(LookupState::Waiting);
            i += 1;
            assert(states@ =~= Seq::new(i as nat, |j: int| LookupState::Waiting));
        }
        let fanout = FanOut { hashes, states, cap, started: 0, in_flight: 0, held: 0 };
        assert(fanout@.in_flight() =~= Set::<int>::empty());
        Some(fanout)
    }

    /// Requests the next lookup, where a worker is free and a transaction is
    /// left: gives its position and hash, and counts it as in flight.
    pub fn start_next(&mut self) -> (request: Option<(usize, TxHash)>)
        requires
            old(self).wf(),
        ensures
            final(self).wf(),
            request is Some <==> old(self)@.can_start(),
            request is None ==> final(self)@ == old(self)@,
            request matches Some((index, hash)) ==> index == old(self)@.started
                && hash@ == old(self)@.hashes[index as int] && final(self)@ == (FanOutView {
                states: old(self)@.states.update(index as int, LookupState::InFlight),
                started: old(self)@.started + 1,
                ..old(self)@
            }) && final(self)@.in_flight() == old(self)@.in_flight().insert(index as int)
                && final(self)@.busy() == old(self)@.busy() + 1,
    {
        if self.started >= self.hashes.len() || self.in_flight + self.held >= self.cap {
            return None;
        }
        let index = self.started;
        let hash = self.hashes[index];
        self.states[index] = LookupState::InFlight;
        self.started = index + 1;
        self.in_flight = self.in_flight + 1;
        proof {
            assert(!old(self)@.in_flight().contains(index as int));
            assert(self@.in_flight() =~= old(self)@.in_flight().insert(index as int));
        }
        Some((index, hash))
    }

    /// Takes the result of the lookup at `index`, where that lookup is in
    /// flight; refuses it otherwise and changes nothing. `keeps_worker` tells
    /// whether the worker stays busy, holding an event for which the channel
    /// has no room.
    pub fn complete(&mut self, index: usize, keeps_worker: bool) -> (accepted: bool)
        requires
            old(self).wf(),
        ensures
            final(self).wf(),
            accepted == old(self)@.awaits(index as int),
            !accepted ==> final(self)@ == old(self)@,
            accepted ==> final(self)@ == (FanOutView {
                states: old(self)@.states.update(index as int, LookupState::Done),
                held: if keeps_worker {
                    old(self)@.held + 1
                } else {
                    old(self)@.held
                },
                ..old(self)@
            }) && final(self)@.in_flight() == old(self)@.in_flight().remove(index as int)
                && old(self)@.in_flight().contains(index as int),
    {
        if index >= self.states.len() {
            return false;
        }
        match self.states[index] {
            LookupState::InFlight => {},
            _ => {
                return false;
            },
        }
        proof {
            assert(old(self)@.in_flight().contains(index as int));
        }
        self.states[index] = LookupState::Done;
        self.in_flight = self.in_flight - 1;
        if keeps_worker {
            self.held = self.held + 1;
        }
        proof {
            assert(self@.in_flight() =~= old(self)@.in_flight().remove(index as int));
        }
        true
    }

    /// Frees a worker whose event has entered the channel. Gives whether
    /// there was such a worker.
    pub fn release(&mut self) -> (released: bool)
        requires
            old(self).wf(),
        ensures
            final(self).wf(),
            released == (old(self)@.held > 0),
            !released ==> final(self)@ == old(self)@,
            released ==> final(self)@ == (FanOutView {
                held: (old(self)@.held - 1) as nat,
                ..old(self)@
            }),
    {
        if self.held == 0 {
            return false;
        }
        self.held = self.held - 1;
        true
    }

    /// Whether the lookup at `index` is in flight.
    pub fn awaits_result(&self, index: usize) -> (awaited: bool)
        ensures
            awaited == self@.awaits(index as int),
    {
        if index >= self.states.len() {
            return false;
        }
        match self.states[index] {
            LookupState::InFlight => true,
            _ => false,
        }
    }

    /// The number of lookups in flight.
    pub fn in_flight(&self) -> (n: usize)
        requires
            self.wf(),
        ensures
            n == self@.in_flight().len(),
            n <= self@.cap,
    {
        self.in_flight
    }

    /// The number of workers that hold an event for the channel.
    pub fn held(&self) -> (n: usize)
        ensures
            n == self@.held,
    {
        self.held
    }

    /// The most workers that are busy at once.
    pub fn cap(&self) -> (cap: usize)
        ensures
            cap == self@.cap,
    {
        self.cap
    }

    /// The number of lookups requested so far.
    pub fn started(&self) -> (n: usize)
        ensures
            n == self@.started,
    {
        self.started
    }

    /// The number of transactions to look up.
    pub fn total(&self) -> (n: usize)
        requires
            self.wf(),
        ensures
            n == self@.states.len(),
    {
        self.states.len()
    }

    /// Whether every lookup is done and no worker is busy.
    pub fn is_finished(&self) -> (finished: bool)
        requires
            self.wf(),
        ensures
            finished == self@.finished(),
    {
        self.started == self.states.len() && self.in_flight == 0 && self.held == 0
    }
}

} // verus!

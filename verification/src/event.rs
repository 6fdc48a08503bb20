//! Contract-creation events and their latency.

use crate::model::Address;
use vstd::prelude::*;

verus! {

/// The time from a block's timestamp to the moment its contract creation was
/// observed, in milliseconds. A clock that runs behind the block's timestamp
/// gives zero, never a negative latency.
pub open spec fn latency_between(block_timestamp_ms: nat, observed_at_ms: nat) -> nat {
    if observed_at_ms >= block_timestamp_ms {
        (observed_at_ms - block_timestamp_ms) as nat
    } else {
        0
    }
}

/// The latency is never negative: it is the difference where the observation
/// is not earlier than the block's timestamp, and zero where it is.
pub proof fn lemma_latency_is_clamped(block_timestamp_ms: nat, observed_at_ms: nat)
    ensures
        latency_between(block_timestamp_ms, observed_at_ms) >= 0,
        observed_at_ms < block_timestamp_ms ==> latency_between(block_timestamp_ms, observed_at_ms)
            == 0,
        observed_at_ms >= block_timestamp_ms ==> block_timestamp_ms + latency_between(
            block_timestamp_ms,
            observed_at_ms,
        ) == observed_at_ms,
        latency_between(block_timestamp_ms, observed_at_ms) <= observed_at_ms,
{
}

/// The mathematical content of a [`ContractCreationEvent`].
pub struct EventView {
    pub contract_address: Seq<u8>,
    pub block_timestamp_ms: nat,
    pub observed_at_ms: nat,
    pub latency_ms: nat,
}

impl EventView {
    /// The latency is the clamped difference of the two timestamps.
    pub open spec fn wf(self) -> bool {
        &&& self.contract_address.len() == 20
        &&& self.block_timestamp_ms <= u64::MAX
        &&& self.observed_at_ms <= u64::MAX
        &&& self.latency_ms == latency_between(self.block_timestamp_ms, self.observed_at_ms)
    }
}

/// The event for a contract at `contract_address`, created in a block stamped
/// `block_timestamp_ms` and observed at `observed_at_ms`.
pub open spec fn event_of(
    contract_address: Seq<u8>,
    block_timestamp_ms: nat,
    observed_at_ms: nat,
) -> EventView {
    EventView {
        contract_address,
        block_timestamp_ms,
        observed_at_ms,
        latency_ms: latency_between(block_timestamp_ms, observed_at_ms),
    }
}

/// What a 64-bit unsigned reading of a signed millisecond count holds: the
/// count itself, or, for a count before the epoch, its two's complement.
pub open spec fn unsigned_millis(raw: int) -> int {
    if raw >= 0 {
        raw
    } else {
        raw + 0x1_0000_0000_0000_0000
    }
}

/// The clamped difference `observed_at_ms - block_timestamp_ms`.
pub fn latency_ms(block_timestamp_ms: u64, observed_at_ms: u64) -> (latency: u64)
    ensures
        latency == latency_between(block_timestamp_ms as nat, observed_at_ms as nat),
{
    if observed_at_ms >= block_timestamp_ms {
        observed_at_ms - block_timestamp_ms
    } else {
        0
    }
}

/// Reinterprets a signed count of milliseconds as an unsigned one.
pub fn millis_from_clock(raw: i64) -> (ms: u64)
    ensures
        ms == unsigned_millis(raw as int),
{
    if raw >= 0 {
        raw as u64
    } else {
        let below: u64 = (-(raw + 1)) as u64;
        u64::MAX - below
    }
}

/// Reads the wall clock by `chrono::Utc::now().timestamp_millis()`: the
/// milliseconds since the Unix epoch at the moment of the call. Nothing is
/// claimed of the value. `Utc::now` stops the program where the system clock
/// reads earlier than 1970.
#[verifier::external_body]
fn utc_now_millis() -> (millis: i64) {
    chrono::Utc::now().timestamp_millis()
}

/// The wall clock in unsigned milliseconds since the Unix epoch.
pub(crate) fn wall_clock_ms() -> u64 {
    millis_from_clock(utc_now_millis())
}

/// A contract creation seen in a block, with the latency of its observation.
/// The fields are fixed at construction.
#[derive(Clone, Copy, Debug, PartialEq, Eq)]
pub struct ContractCreationEvent {
    contract_address: Address,
    block_timestamp_ms: u64,
    observed_at_ms: u64,
    latency_ms: u64,
}

impl View for ContractCreationEvent {
    type V = EventView;

    closed spec fn view(&self) -> EventView {
        EventView {
            contract_address: self.contract_address@,
            block_timestamp_ms: self.block_timestamp_ms as nat,
            observed_at_ms: self.observed_at_ms as nat,
            latency_ms: self.latency_ms as nat,
        }
    }
}

impl ContractCreationEvent {
    #[verifier::type_invariant]
    spec fn latency_is_clamped_difference(self) -> bool {
        self.latency_ms == latency_between(
            self.block_timestamp_ms as nat,
            self.observed_at_ms as nat,
        )
    }

    /// The event for a creation at `contract_address` in a block stamped
    /// `block_timestamp_ms`, observed at `observed_at_ms`.
    pub fn new(contract_address: Address, block_timestamp_ms: u64, observed_at_ms: u64) -> (event:
        Self)
        ensures
            event@ == event_of(
                contract_address@,
                block_timestamp_ms as nat,
                observed_at_ms as nat,
            ),
            event@.wf(),
    {
        ContractCreationEvent {
            contract_address,
            block_timestamp_ms,
            observed_at_ms,
            latency_ms: latency_ms(block_timestamp_ms, observed_at_ms),
        }
    }

    /// The event for a creation that is observed now, by the wall clock.
    /// Whatever the clock reads, the event carries the given address and
    /// block timestamp, and its latency is the clamped difference.
    pub fn observed_now(contract_address: Address, block_timestamp_ms: u64) -> (event: Self)
        ensures
            event@ == event_of(
                contract_address@,
                block_timestamp_ms as nat,
                event@.observed_at_ms,
            ),
            event@.wf(),
    {
        Self::new(contract_address, block_timestamp_ms, wall_clock_ms())
    }

    pub fn contract_address(&self) -> (address: Address)
        ensures
            address@ == self@.contract_address,
    {
        self.contract_address
    }

    pub fn block_timestamp_ms(&self) -> (ms: u64)
        ensures
            ms == self@.block_timestamp_ms,
    {
        self.block_timestamp_ms
    }

    pub fn observed_at_ms(&self) -> (ms: u64)
        ensures
            ms == self@.observed_at_ms,
    {
        self.observed_at_ms
    }

    /// The latency, which for every event is the clamped difference of its
    /// two timestamps.
    pub fn latency_ms(&self) -> (ms: u64)
        ensures
            ms == self@.latency_ms,
            ms == latency_between(self@.block_timestamp_ms, self@.observed_at_ms),
            self@.wf(),
    {
        proof {
            use_type_invariant(self);
        }
        self.latency_ms
    }
}

} // verus!

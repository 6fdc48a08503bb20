//! The mempool watcher: for each pending transaction hash, look up the
//! transaction and its receipt, and report a contract creation together with
//! the delay of its detection. The hashes reported so far are remembered.

use crate::event::{latency_between, latency_ms, wall_clock_ms};
use crate::model::{hash_views, Address, ReceiptLookup, Transaction, TxHash};
use vstd::prelude::*;

verus! {

/// What the stream of pending transactions yields.
#[derive(Clone, Copy, Debug, PartialEq, Eq)]
pub enum PendingItem {
    /// The hash of a pending transaction.
    Hash(TxHash),
    /// The stream gave an error.
    Failed,
    /// The stream ended.
    Closed,
}

/// What the watcher asks of its driver for one item of the stream.
#[derive(Clone, Copy, Debug, PartialEq, Eq)]
pub enum WatchAction {
    /// Look up the transaction with this hash.
    FetchTransaction(TxHash),
    /// Stop watching: the stream gave an error.
    StopOnFailure,
    /// Stop watching: the stream ended.
    StopAtEnd,
}

/// The action for one item of the stream.
pub open spec fn watch_step(item: PendingItem) -> WatchAction {
    match item {
        PendingItem::Hash(hash) => WatchAction::FetchTransaction(hash),
        PendingItem::Failed => WatchAction::StopOnFailure,
        PendingItem::Closed => WatchAction::StopAtEnd,
    }
}

/// The action for one item of the stream, by [`watch_step`].
pub fn on_pending_item(item: PendingItem) -> (action: WatchAction)
    ensures
        action == watch_step(item),
{
    match item {
        PendingItem::Hash(hash) => WatchAction::FetchTransaction(hash),
        PendingItem::Failed => WatchAction::StopOnFailure,
        PendingItem::Closed => WatchAction::StopAtEnd,
    }
}

/// How the lookup of a transaction ended.
#[derive(Clone, Copy, Debug, PartialEq, Eq)]
pub enum TransactionLookup {
    /// The node returned the transaction.
    Found(Transaction),
    /// The node does not know the transaction.
    Absent,
    /// The request failed.
    Failed,
}

impl TransactionLookup {
    /// The hash whose receipt is looked up next: that of the transaction,
    /// where it was found.
    pub open spec fn receipt_hash(&self) -> Option<TxHash> {
        match self {
            TransactionLookup::Found(transaction) => Some(transaction.hash),
            _ => None,
        }
    }

    /// The hash whose receipt is looked up next, by
    /// [`TransactionLookup::receipt_hash`]; none where the transaction was
    /// not found, which ends the handling of its hash.
    #[verifier::when_used_as_spec(receipt_hash)]
    pub fn receipt_wanted(&self) -> (hash: Option<TxHash>)
        ensures
            hash == self.receipt_hash(),
    {
        match self {
            TransactionLookup::Found(transaction) => Some(transaction.hash),
            _ => None,
        }
    }
}

/// A contract creation found through the pending-transaction feed.
#[derive(Clone, Copy, Debug, PartialEq, Eq)]
pub struct PendingCreation {
    pub contract_address: Address,
    pub creator: Address,
    pub transaction_hash: TxHash,
    pub gas_price: Option<[u64; 4]>,
    /// When the hash came in.
    pub received_at_ms: u64,
    /// When the transaction's details were complete.
    pub processed_at_ms: u64,
    /// The time from the one to the other, zero where the clock ran back.
    pub delay_ms: u64,
    /// The number of hashes reported so far, this one included.
    pub seen_count: usize,
    /// Whether this hash is reported for the first time.
    pub first_report: bool,
}

/// The set of transaction hashes that were reported as contract creations. It
/// only grows.
pub struct SeenTransactions {
    hashes: Vec<TxHash>,
}

impl View for SeenTransactions {
    type V = Set<Seq<u8>>;

    closed spec fn view(&self) -> Set<Seq<u8>> {
        hash_views(self.hashes@).to_set()
    }
}

/// The report for a transaction whose receipt lookup ended as `lookup`, given
/// the hashes `seen` before: present exactly where the receipt names a
/// created contract.
pub open spec fn report_of(
    seen: Set<Seq<u8>>,
    transaction: Transaction,
    lookup: ReceiptLookup,
    received_at_ms: u64,
    processed_at_ms: u64,
) -> Option<PendingCreation> {
    match lookup.created() {
        None => None,
        Some(contract_address) => Some(
            PendingCreation {
                contract_address,
                creator: transaction.from,
                transaction_hash: transaction.hash,
                gas_price: transaction.gas_price,
                received_at_ms,
                processed_at_ms,
                delay_ms: latency_between(received_at_ms as nat, processed_at_ms as nat) as u64,
                seen_count: seen.insert(transaction.hash@).len() as usize,
                first_report: !seen.contains(transaction.hash@),
            },
        ),
    }
}

/// The hashes seen after the same step: one more where a creation is
/// reported, unchanged otherwise.
pub open spec fn seen_after(
    seen: Set<Seq<u8>>,
    transaction: Transaction,
    lookup: ReceiptLookup,
) -> Set<Seq<u8>> {
    if lookup.created() is Some {
        seen.insert(transaction.hash@)
    } else {
        seen
    }
}

impl SeenTransactions {
    /// No hash is held twice.
    pub closed spec fn wf(&self) -> bool {
        hash_views(self.hashes@).no_duplicates()
    }

    /// The set is finite.
    pub proof fn lemma_finite(&self)
        ensures
            self@.finite(),
    {
        vstd::seq_lib::seq_to_set_is_finite(hash_views(self.hashes@));
    }

    /// The empty set.
    pub fn new() -> (seen: Self)
        ensures
            seen.wf(),
            seen@ == Set::<Seq<u8>>::empty(),
    {
        let seen = SeenTransactions { hashes: Vec::new() };
        assert(seen@ =~= Set::<Seq<u8>>::empty());
        seen
    }

    /// Whether the hash is in the set.
    pub fn contains(&self, hash: &TxHash) -> (found: bool)
        ensures
            found == self@.contains(hash@),
    {
        let ghost views = hash_views(self.hashes@);
        let mut i: usize = 0;
        while i < self.hashes.len()
            invariant
                i <= self.hashes.len(),
                views == hash_views(self.hashes@),
                forall|j: int| 0 <= j < i ==> views[j] != hash@,
            decreases self.hashes.len() - i,
        {
            if self.hashes[i].same_as(hash) {
                assert(views[i as int] == hash@);
                assert(views.to_set().contains(hash@));
                return true;
            }
            i += 1;
        }
        assert(!views.to_set().contains(hash@)) by {
            if views.contains(hash@) {
                let j = choose|j: int| 0 <= j < views.len() && views[j] == hash@;
                assert(views[j] != hash@);
            }
        }
        false
    }

    /// Puts the hash into the set. Gives whether it was new.
    pub fn insert(&mut self, hash: TxHash) -> (added: bool)
        requires
            old(self).wf(),
        ensures
            final(self).wf(),
            final(self)@ == old(self)@.insert(hash@),
            added == !old(self)@.contains(hash@),
    {
        if self.contains(&hash) {
            assert(self@ =~= old(self)@.insert(hash@));
            return false;
        }
        let ghost before = hash_views(self.hashes@);
        self.hashes.push(hash);
        proof {
            let after = hash_views(self.hashes@);
            assert(after =~= before.push(hash@));
            before.lemma_push_to_set_commute(hash@);
            assert forall|i: int, j: int|
                0 <= i < after.len() && 0 <= j < after.len() && i != j implies after[i]
                != after[j] by {
                if i < before.len() && j < before.len() {
                    assert(before[i] != before[j]);
                } else if i < before.len() {
                    assert(before.to_set().contains(before[i]));
                } else {
                    assert(before.to_set().contains(before[j]));
                }
            }
        }
        true
    }

    /// The number of hashes in the set.
    pub fn len(&self) -> (n: usize)
        requires
            self.wf(),
        ensures
            n == self@.len(),
    {
        proof {
            hash_views(self.hashes@).unique_seq_to_set();
        }
        self.hashes.len()
    }

    /// Handles the receipt result for a pending transaction whose hash came
    /// in at `received_at_ms` and whose details were complete at
    /// `processed_at_ms`. Where the receipt names a created contract, the
    /// transaction's hash joins the set and the creation is reported;
    /// otherwise nothing changes and nothing is reported.
    pub fn record_at(
        &mut self,
        transaction: &Transaction,
        lookup: &ReceiptLookup,
        received_at_ms: u64,
        processed_at_ms: u64,
    ) -> (report: Option<PendingCreation>)
        requires
            old(self).wf(),
        ensures
            final(self).wf(),
            final(self)@ == seen_after(old(self)@, *transaction, *lookup),
            old(self)@.subset_of(final(self)@),
            report == report_of(
                old(self)@,
                *transaction,
                *lookup,
                received_at_ms,
                processed_at_ms,
            ),
    {
        match lookup.created_contract() {
            None => None,
            Some(contract_address) => {
                let first_report = self.insert(transaction.hash);
                Some(
                    PendingCreation {
                        contract_address,
                        creator: transaction.from,
                        transaction_hash: transaction.hash,
                        gas_price: transaction.gas_price,
                        received_at_ms,
                        processed_at_ms,
                        delay_ms: latency_ms(received_at_ms, processed_at_ms),
                        seen_count: self.len(),
                        first_report,
                    },
                )
            },
        }
    }

    /// As [`SeenTransactions::record_at`], with the wall clock read for the
    /// moment at which the details were complete. Whatever the clock reads,
    /// the set changes as there, and a report carries the reading.
    pub fn record(
        &mut self,
        transaction: &Transaction,
        lookup: &ReceiptLookup,
        received_at_ms: u64,
    ) -> (report: Option<PendingCreation>)
        requires
            old(self).wf(),
        ensures
            final(self).wf(),
            final(self)@ == seen_after(old(self)@, *transaction, *lookup),
            old(self)@.subset_of(final(self)@),
            report is Some <==> lookup.created() is Some,
            report is Some ==> report == report_of(
                old(self)@,
                *transaction,
                *lookup,
                received_at_ms,
                report->0.processed_at_ms,
            ),
    {
        self.record_at(transaction, lookup, received_at_ms, wall_clock_ms())
    }
}

} // verus!

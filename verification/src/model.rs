//! Plain chain data, as the pipeline reads it.

use vstd::prelude::*;

verus! {

/// An account or contract address.
#[derive(Clone, Copy, Debug, PartialEq, Eq)]
pub struct Address {
    pub bytes: [u8; 20],
}

impl View for Address {
    type V = Seq<u8>;

    open spec fn view(&self) -> Seq<u8> {
        self.bytes@
    }
}

/// The identifier of a transaction.
#[derive(Clone, Copy, Debug, PartialEq, Eq)]
pub struct TxHash {
    pub bytes: [u8; 32],
}

impl View for TxHash {
    type V = Seq<u8>;

    open spec fn view(&self) -> Seq<u8> {
        self.bytes@
    }
}

impl TxHash {
    /// Whether two hashes hold the same bytes.
    pub fn same_as(&self, other: &TxHash) -> (same: bool)
        ensures
            same == (self@ == other@),
    {
        let mut i: usize = 0;
        while i < 32
            invariant
                i <= 32,
                forall|j: int| 0 <= j < i ==> self.bytes@[j] == other.bytes@[j],
            decreases 32 - i,
        {
            if self.bytes[i] != other.bytes[i] {
                return false;
            }
            i += 1;
        }
        assert(self@ =~= other@);
        true
    }
}

/// A count of seconds in milliseconds.
pub open spec fn millis_of_seconds(seconds: nat) -> nat {
    seconds * 1000
}

/// The views of a sequence of hashes.
pub open spec fn hash_views(hashes: Seq<TxHash>) -> Seq<Seq<u8>> {
    Seq::new(hashes.len(), |i: int| hashes[i]@)
}

/// The head of a block, as a subscription announces it.
#[derive(Clone, Copy, Debug, PartialEq, Eq)]
pub struct BlockHeader {
    pub number: u64,
    /// Seconds since the Unix epoch.
    pub timestamp: u64,
}

/// Milliseconds for seconds, where the product fits in 64 bits.
pub fn millis_from_seconds(seconds: u64) -> (ms: Option<u64>)
    ensures
        ms is Some <==> millis_of_seconds(seconds as nat) <= u64::MAX,
        ms is Some ==> ms->0 == millis_of_seconds(seconds as nat),
{
    seconds.checked_mul(1000)
}

impl BlockHeader {
    /// The timestamp in milliseconds since the Unix epoch, where that fits
    /// in 64 bits.
    pub fn timestamp_ms(&self) -> (ms: Option<u64>)
        ensures
            ms is Some <==> millis_of_seconds(self.timestamp as nat) <= u64::MAX,
            ms is Some ==> ms->0 == millis_of_seconds(self.timestamp as nat),
    {
        millis_from_seconds(self.timestamp)
    }
}

/// A transaction of a block.
#[derive(Clone, Copy, Debug, PartialEq, Eq)]
pub struct Transaction {
    pub hash: TxHash,
    pub from: Address,
    /// Absent where the transaction attempts to create a contract.
    pub to: Option<Address>,
    /// A 256-bit quantity, least significant limb first.
    pub gas_price: Option<[u64; 4]>,
}

impl Transaction {
    /// Whether the transaction names no recipient, which marks an attempt to
    /// create a contract before any receipt is known.
    pub open spec fn creation_attempt(&self) -> bool {
        self.to is None
    }

    #[verifier::when_used_as_spec(creation_attempt)]
    pub fn is_creation_attempt(&self) -> (attempt: bool)
        ensures
            attempt == self.creation_attempt(),
    {
        self.to.is_none()
    }
}

/// A block together with its transactions, in block order.
#[derive(Clone, Debug, PartialEq, Eq)]
pub struct Block {
    pub number: u64,
    /// Seconds since the Unix epoch.
    pub timestamp: u64,
    pub transactions: Vec<Transaction>,
}

/// The transactions among `transactions` that name no recipient, in order.
pub open spec fn creation_attempts_of(transactions: Seq<Transaction>) -> Seq<Transaction> {
    transactions.filter(|t: Transaction| t.creation_attempt())
}

impl Block {
    /// The timestamp in milliseconds since the Unix epoch, where that fits
    /// in 64 bits.
    pub fn timestamp_ms(&self) -> (ms: Option<u64>)
        ensures
            ms is Some <==> millis_of_seconds(self.timestamp as nat) <= u64::MAX,
            ms is Some ==> ms->0 == millis_of_seconds(self.timestamp as nat),
    {
        millis_from_seconds(self.timestamp)
    }

    /// The hashes of the block's transactions, in block order.
    pub fn transaction_hashes(&self) -> (hashes: Vec<TxHash>)
        ensures
            hashes@ == self.transactions@.map_values(|t: Transaction| t.hash),
    {
        let mut hashes: Vec<TxHash> = Vec::new();
        let mut i: usize = 0;
        while i < self.transactions.len()
            invariant
                i <= self.transactions.len(),
                hashes@ == self.transactions@.take(i as int).map_values(|t: Transaction| t.hash),
            decreases self.transactions.len() - i,
        {
            hashes.push(self.transactions[i].hash);
            proof {
                let f = |t: Transaction| t.hash;
                assert(self.transactions@.take(i + 1) =~= self.transactions@.take(i as int).push(
                    self.transactions@[i as int],
                ));
                assert(self.transactions@.take(i + 1).map_values(f) =~= self.transactions@.take(
                    i as int,
                ).map_values(f).push(f(self.transactions@[i as int])));
            }
            i += 1;
        }
        assert(self.transactions@.take(i as int) =~= self.transactions@);
        hashes
    }

    /// The transactions that attempt to create a contract, in block order:
    /// a pre-filter for a watcher that looks up receipts for these alone.
    pub fn creation_attempts(&self) -> (attempts: Vec<Transaction>)
        ensures
            attempts@ == creation_attempts_of(self.transactions@),
    {
        let mut attempts: Vec<Transaction> = Vec::new();
        let mut i: usize = 0;
        while i < self.transactions.len()
            invariant
                i <= self.transactions.len(),
                attempts@ == creation_attempts_of(self.transactions@.take(i as int)),
            decreases self.transactions.len() - i,
        {
            let t = self.transactions[i];
            proof {
                let pred = |t: Transaction| t.creation_attempt();
                assert(self.transactions@.take(i + 1) =~= self.transactions@.take(i as int).push(
                    self.transactions@[i as int],
                ));
                lemma_filter_push(self.transactions@.take(i as int), t, pred);
            }
            if t.is_creation_attempt() {
                attempts.push(t);
            }
            i += 1;
        }
        assert(self.transactions@.take(i as int) =~= self.transactions@);
        attempts
    }
}

/// Filtering a sequence with one more item at its end keeps what the filter
/// kept before, followed by the item where it passes.
pub proof fn lemma_filter_push<T>(s: Seq<T>, item: T, pred: spec_fn(T) -> bool)
    ensures
        s.push(item).filter(pred) == if pred(item) {
            s.filter(pred).push(item)
        } else {
            s.filter(pred)
        },
{
    reveal(Seq::filter);
    assert(s.push(item).drop_last() =~= s);
}

/// One entry of a receipt's event log.
#[derive(Clone, Debug, PartialEq, Eq)]
pub struct LogEntry {
    pub address: Address,
    pub topics: Vec<[u8; 32]>,
    pub data: Vec<u8>,
}

/// The result of executing a transaction.
#[derive(Clone, Debug, PartialEq, Eq)]
pub struct Receipt {
    pub transaction_hash: TxHash,
    /// Present exactly where the transaction created a contract.
    pub contract_address: Option<Address>,
    pub block_number: Option<u64>,
    pub logs: Vec<LogEntry>,
}

/// How a receipt lookup ended.
#[derive(Clone, Debug, PartialEq, Eq)]
pub enum ReceiptLookup {
    /// The node returned the receipt.
    Found(Receipt),
    /// The node knows no receipt for the transaction.
    Absent,
    /// The request failed or timed out.
    Failed,
}

impl ReceiptLookup {
    /// The address of the contract that the looked-up transaction created:
    /// present only for a receipt that was found and names one.
    pub open spec fn created(&self) -> Option<Address> {
        match self {
            ReceiptLookup::Found(receipt) => receipt.contract_address,
            _ => None,
        }
    }

    #[verifier::when_used_as_spec(created)]
    pub fn created_contract(&self) -> (address: Option<Address>)
        ensures
            address == self.created(),
    {
        match self {
            ReceiptLookup::Found(receipt) => receipt.contract_address,
            _ => None,
        }
    }
}

} // verus!

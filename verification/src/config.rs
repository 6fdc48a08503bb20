//! The settings of a watcher, held to their permitted ranges.

use vstd::prelude::*;

verus! {

/// The fewest receipt lookups that a block's fan-out may be allowed at once.
pub const MIN_RECEIPT_CONCURRENCY: usize = 100;

/// The most receipt lookups that a block's fan-out may be allowed at once.
pub const MAX_RECEIPT_CONCURRENCY: usize = 200;

/// The smallest capacity of an event channel.
pub const MIN_CHANNEL_CAPACITY: usize = 100;

/// The largest capacity of an event channel.
pub const MAX_CHANNEL_CAPACITY: usize = 1000;

/// The shortest pause before a reconnect, in seconds.
pub const MIN_RECONNECT_DELAY_SECS: u64 = 5;

/// The longest pause before a reconnect, in seconds.
pub const MAX_RECONNECT_DELAY_SECS: u64 = 10;

/// The number of records at which the output stage writes a batch at the
/// latest.
pub const OUTPUT_BATCH_LIMIT: usize = 32;

/// Why a configuration was refused.
#[derive(Clone, Copy, Debug, PartialEq, Eq, Structural)]
pub enum ConfigError {
    /// The cap on concurrent receipt lookups is outside 100 to 200.
    ReceiptConcurrencyOutOfRange,
    /// The channel capacity is outside 100 to 1000.
    ChannelCapacityOutOfRange,
    /// The reconnect delay is outside 5 to 10 seconds.
    ReconnectDelayOutOfRange,
}

/// Whether a cap on concurrent receipt lookups is permitted.
pub open spec fn receipt_concurrency_ok(cap: nat) -> bool {
    100 <= cap <= 200
}

/// Whether a channel capacity is permitted.
pub open spec fn channel_capacity_ok(capacity: nat) -> bool {
    100 <= capacity <= 1000
}

/// Whether a reconnect delay is permitted.
pub open spec fn reconnect_delay_ok(seconds: nat) -> bool {
    5 <= seconds <= 10
}

/// The verdict on a triple of settings: the first setting out of range, if
/// there is one.
pub open spec fn validate(cap: nat, capacity: nat, delay_secs: nat) -> Option<ConfigError> {
    if !receipt_concurrency_ok(cap) {
        Some(ConfigError::ReceiptConcurrencyOutOfRange)
    } else if !channel_capacity_ok(capacity) {
        Some(ConfigError::ChannelCapacityOutOfRange)
    } else if !reconnect_delay_ok(delay_secs) {
        Some(ConfigError::ReconnectDelayOutOfRange)
    } else {
        None
    }
}

/// The settings of a watcher. Every value of this type is within range.
#[derive(Clone, Copy, Debug, PartialEq, Eq)]
pub struct WatcherConfig {
    receipt_concurrency: usize,
    channel_capacity: usize,
    reconnect_delay_secs: u64,
}

impl WatcherConfig {
    #[verifier::type_invariant]
    spec fn in_range(self) -> bool {
        validate(
            self.receipt_concurrency as nat,
            self.channel_capacity as nat,
            self.reconnect_delay_secs as nat,
        ) is None
    }

    /// The cap on concurrent receipt lookups.
    pub closed spec fn spec_receipt_concurrency(&self) -> usize {
        self.receipt_concurrency
    }

    /// The capacity of each block's event channel.
    pub closed spec fn spec_channel_capacity(&self) -> usize {
        self.channel_capacity
    }

    /// The pause before a reconnect, in seconds.
    pub closed spec fn spec_reconnect_delay_secs(&self) -> u64 {
        self.reconnect_delay_secs
    }

    /// The settings, where each is within its range; else the first that is
    /// not.
    pub fn new(
        receipt_concurrency: usize,
        channel_capacity: usize,
        reconnect_delay_secs: u64,
    ) -> (config: Result<Self, ConfigError>)
        ensures
            match validate(
                receipt_concurrency as nat,
                channel_capacity as nat,
                reconnect_delay_secs as nat,
            ) {
                Some(error) => config == Err::<Self, ConfigError>(error),
                None => config is Ok && config->Ok_0.spec_receipt_concurrency()
                    == receipt_concurrency && config->Ok_0.spec_channel_capacity()
                    == channel_capacity && config->Ok_0.spec_reconnect_delay_secs()
                    == reconnect_delay_secs,
            },
    {
        if receipt_concurrency < MIN_RECEIPT_CONCURRENCY || receipt_concurrency
            > MAX_RECEIPT_CONCURRENCY {
            Err(ConfigError::ReceiptConcurrencyOutOfRange)
        } else if channel_capacity < MIN_CHANNEL_CAPACITY || channel_capacity
            > MAX_CHANNEL_CAPACITY {
            Err(ConfigError::ChannelCapacityOutOfRange)
        } else if reconnect_delay_secs < MIN_RECONNECT_DELAY_SECS || reconnect_delay_secs
            > MAX_RECONNECT_DELAY_SECS {
            Err(ConfigError::ReconnectDelayOutOfRange)
        } else {
            Ok(WatcherConfig { receipt_concurrency, channel_capacity, reconnect_delay_secs })
        }
    }

    /// The cap on concurrent receipt lookups, between 100 and 200.
    #[verifier::when_used_as_spec(spec_receipt_concurrency)]
    pub fn receipt_concurrency(&self) -> (cap: usize)
        ensures
            cap == self.spec_receipt_concurrency(),
            receipt_concurrency_ok(cap as nat),
    {
        proof {
            use_type_invariant(self);
        }
        self.receipt_concurrency
    }

    /// The capacity of each block's event channel, between 100 and 1000.
    #[verifier::when_used_as_spec(spec_channel_capacity)]
    pub fn channel_capacity(&self) -> (capacity: usize)
        ensures
            capacity == self.spec_channel_capacity(),
            channel_capacity_ok(capacity as nat),
    {
        proof {
            use_type_invariant(self);
        }
        self.channel_capacity
    }

    /// The pause before a reconnect, between 5 and 10 seconds.
    #[verifier::when_used_as_spec(spec_reconnect_delay_secs)]
    pub fn reconnect_delay_secs(&self) -> (seconds: u64)
        ensures
            seconds == self.spec_reconnect_delay_secs(),
            reconnect_delay_ok(seconds as nat),
    {
        proof {
            use_type_invariant(self);
        }
        self.reconnect_delay_secs
    }
}

impl Default for WatcherConfig {
    /// 200 concurrent lookups, a channel of 100 events, a pause of 5 seconds.
    fn default() -> (config: Self)
        ensures
            config.spec_receipt_concurrency() == 200,
            config.spec_channel_capacity() == 100,
            config.spec_reconnect_delay_secs() == 5,
    {
        WatcherConfig { receipt_concurrency: 200, channel_capacity: 100, reconnect_delay_secs: 5 }
    }
}

} // verus!

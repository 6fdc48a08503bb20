//! Watches a chain head for contract creations.
//!
//! The crate holds the decisions of a block-to-event pipeline: which receipt
//! lookups to start, which events a block yields, how they queue up under
//! backpressure, how they are batched into output records, and how a
//! connection is supervised. A driver performs the network calls and hands
//! their results back.

pub mod channel;
pub mod config;
pub mod dispatcher;
pub mod event;
pub mod fanout;
pub mod mempool;
pub mod model;
pub mod output;
pub mod pipeline;
pub mod record;
pub mod supervisor;

//! Workload generation and execution engine of a load-testing client for a
//! remote key-value store.
//!
//! The crate holds the parts of the client that decide something: which
//! operation a worker issues next and what outcome it expects, how operations
//! are framed on the wire, how a run is sized. Sockets, threads and clocks
//! belong to the program that drives it.

pub mod batch;
pub mod codec;
pub mod error;
pub mod mix;
pub mod operation;
pub mod oracle;
pub mod plan;
pub mod power;
pub mod prefill;
pub mod rng;
pub mod worker;
pub mod workload;

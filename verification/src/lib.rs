//! A minimal in-memory key-value store: a command engine over a shared map,
//! an append-only log in a line-based text format with startup replay, and
//! primary-to-replica replication planning. The network transport, file I/O
//! and process lifecycle live outside this library; the library computes the
//! state changes, responses, log records and replication decisions, each with
//! a proved contract.

pub mod aof;
pub mod engine;
pub mod gateway;
pub mod laws;
pub mod numeral;
pub mod request;
pub mod store;

//! An event-stream broker library: the framed wire protocol connecting
//! clients and peer servers, the per-connection state machine that drives
//! producers and consumers, and the multi-writer event log with version
//! vectors for cluster convergence.

pub mod headers;
pub mod event;
pub mod time;
pub mod ser;
pub mod wire;
pub mod codec;
pub mod parse;
pub mod laws;
pub mod counter;
pub mod options;
pub mod versionvec;
pub mod glob;
pub mod store;
pub mod peer;
pub mod connection;
pub mod engine;

//! Chronos: the core of a small time-series database. Series identity and tag
//! indexes, in-memory tables of recent readings, the write-ahead log format,
//! and the chunk types of long-term storage.
pub mod chunk;
pub mod codec;
pub mod errors;
pub mod index;
pub mod memtable;
pub mod types;
pub mod wal;

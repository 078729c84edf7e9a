//! Deduplication of retried requests by a caller-supplied key.

pub mod key;
pub mod persistence;
pub mod processing;
pub mod table;

//! Assembles one two-column arrow table (a dictionary-encoded bucket column
//! and a concatenated key column) out of many keyed buckets.

pub mod assemble;
pub mod codec;
pub mod columns;
pub mod sources;

pub use arrow;

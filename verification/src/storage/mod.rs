//! The sharded in-memory map: entries, shards, the engine over them, expiry
//! and snapshots.

pub mod engine;
pub mod error;
pub mod hash;
pub mod laws;
pub mod model;
pub mod shard;
pub mod snapshot;
pub mod ttl;
pub mod types;

//! Admission of connections: limits, the bookkeeping of one connection, the
//! choice of the connection to evict, and the counters.

pub mod config;
pub mod manager;
pub mod metrics;
pub mod types;

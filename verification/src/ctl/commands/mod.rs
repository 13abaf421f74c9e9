//! The commands of the tool.

pub mod keys;
pub mod snapshot;
pub mod user;
pub mod wal;

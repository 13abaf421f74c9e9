//! The write-ahead log: record codec, segment scanning and the bookkeeping of
//! the active segment.

pub mod buffer;
pub mod checksum;
pub mod config;
pub mod entry;
pub mod error;
pub mod manager;
pub mod replay;
pub mod segment;

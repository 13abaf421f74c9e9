//! An in-memory key-value store with a write-ahead log, snapshots, TTL
//! expiry and a replication feed.
//!
//! The crate holds the state and the rules of the store: how a record is laid
//! out on the wire, how a log segment is scanned after a crash, how shards
//! answer reads and writes, how a snapshot is framed, what a follower does
//! with the stream it is fed, and when a checkpoint may let go of old
//! segments. Around this core stand the rules of the surfaces: permissions,
//! the answers of the REST handlers, the choice of a connection to evict.
//! Every function is stated as a contract over mathematical models (`Seq`,
//! `Map`, views) and proved. Files, sockets and tasks belong to the caller.

pub mod api;
pub mod auth;
pub mod background;
pub mod catalog;
pub mod clock;
pub mod config;
pub mod connection;
pub mod ctl;
pub mod storage;
pub mod text;
pub mod wal;

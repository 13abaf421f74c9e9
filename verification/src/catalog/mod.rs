//! The system catalog: users, roles, grants and settings, kept as ordinary
//! entries of the engine under reserved keys.

pub mod error;
pub mod keys;
pub mod manager;
pub mod types;

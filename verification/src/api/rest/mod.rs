//! The REST surface.

pub mod handler;
pub mod types;

//! What the client-facing surfaces answer: the request and response shapes,
//! the errors, and the handlers' decisions.

pub mod auth_middleware;
pub mod encoding;
pub mod error;
pub mod rest;

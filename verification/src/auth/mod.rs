//! Who may do what: the identity behind a request, the permission check and
//! the events written to the audit trail.

pub mod apikey;
pub mod audit;
pub mod jwt;
pub mod manager;
pub mod types;

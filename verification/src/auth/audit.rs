//! The events of the audit trail.

use crate::text::option_text;
use vstd::prelude::*;

verus! {

/// One line of the audit trail.
#[derive(Debug)]
pub struct AuditEvent {
    /// Seconds since the Unix epoch.
    pub timestamp: u64,
    /// `login_success`, `login_failed` or `permission_denied`.
    pub event: String,
    pub user: Option<String>,
    pub source_ip: String,
    /// `api_key`, `jwt` or `password`.
    pub auth_method: String,
    /// The id of the API key, where one was used.
    pub key_id: Option<String>,
    /// The operation that was denied.
    pub op: Option<String>,
    /// The key the denied operation was aimed at.
    pub key: Option<String>,
    pub success: bool,
    pub details: Option<String>,
}

/// An [`AuditEvent`] as plain data.
pub struct AuditEventView {
    pub timestamp: u64,
    pub event: Seq<char>,
    pub user: Option<Seq<char>>,
    pub source_ip: Seq<char>,
    pub auth_method: Seq<char>,
    pub key_id: Option<Seq<char>>,
    pub op: Option<Seq<char>>,
    pub key: Option<Seq<char>>,
    pub success: bool,
    pub details: Option<Seq<char>>,
}

impl View for AuditEvent {
    type V = AuditEventView;

    open spec fn view(&self) -> AuditEventView {
        AuditEventView {
            timestamp: self.timestamp,
            event: self.event@,
            user: option_text(self.user),
            source_ip: self.source_ip@,
            auth_method: self.auth_method@,
            key_id: option_text(self.key_id),
            op: option_text(self.op),
            key: option_text(self.key),
            success: self.success,
            details: option_text(self.details),
        }
    }
}

} // verus!

//! The settings kept in the catalog.

use vstd::prelude::*;

verus! {

#[derive(Debug)]
pub struct AuthSettings {
    /// The name of the password hash in use.
    pub password_encryption: String,
    pub min_password_length: u8,
    pub login_attempt_limit: u8,
    pub lockout_duration_sec: u32,
    pub session_timeout_sec: u32,
}

impl Default for AuthSettings {
    /// Scrypt hashes, passwords of eight characters or more, five attempts,
    /// five minutes of lockout, sessions of an hour.
    fn default() -> (s: Self)
        ensures
            s.password_encryption@ == "scrypt"@,
            s.min_password_length == 8,
            s.login_attempt_limit == 5,
            s.lockout_duration_sec == 300,
            s.session_timeout_sec == 3600,
    {
        AuthSettings {
            password_encryption: "scrypt".to_owned(),
            min_password_length: 8,
            login_attempt_limit: 5,
            lockout_duration_sec: 300,
            session_timeout_sec: 3600,
        }
    }
}

#[derive(Debug, Clone, Copy, PartialEq, Eq, Structural)]
pub struct AuditSettings {
    pub log_successful_logins: bool,
    pub log_failed_logins: bool,
    pub retain_logs_days: u32,
}

impl Default for AuditSettings {
    /// Every login is logged, and logs are kept for ninety days.
    fn default() -> (s: Self)
        ensures
            s == (AuditSettings {
                log_successful_logins: true,
                log_failed_logins: true,
                retain_logs_days: 90,
            }),
    {
        AuditSettings { log_successful_logins: true, log_failed_logins: true, retain_logs_days: 90 }
    }
}

} // verus!

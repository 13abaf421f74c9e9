//! API keys.
//!
//! A key is stored in the catalog under `_sys.api_keys:<key id>`. The
//! library judges the stored record; reading it from the engine and out of
//! its JSON form is the caller's work.

use crate::auth::types::{AuthError, AuthErrorView};
use crate::text::{clone_strings, strings_view};
use vstd::prelude::*;

verus! {

/// The stored record of an API key.
#[derive(Debug)]
pub struct ApiKeyRecord {
    pub owner_user: String,
    pub permissions: Vec<String>,
    /// The instant the key runs out, seconds since the Unix epoch.
    pub expires_at: Option<i64>,
    pub revoked: bool,
}

/// Judges stored API keys.
pub struct ApiKeyValidator {}

impl ApiKeyValidator {
    pub fn new() -> Self {
        ApiKeyValidator {  }
    }

    /// Whether a key with this record is good at `now_secs`: it is not
    /// revoked, and time has not gone past its end.
    pub open spec fn accepts(revoked: bool, expires_at: Option<i64>, now_secs: i64) -> bool {
        !revoked && !(expires_at matches Some(e) && now_secs > e)
    }

    /// The owner and the permissions of a key that is good at `now_secs`;
    /// any other key gives invalid credentials.
    pub fn validate(&self, record: &ApiKeyRecord, now_secs: i64) -> (r: Result<
        (String, Vec<String>),
        AuthError,
    >)
        ensures
            match r {
                Ok((user, perms)) => Self::accepts(record.revoked, record.expires_at, now_secs)
                    && user@ == record.owner_user@ && strings_view(perms@) == strings_view(
                    record.permissions@,
                ),
                Err(e) => !Self::accepts(record.revoked, record.expires_at, now_secs) && e@
                    == AuthErrorView::InvalidCredentials,
            },
    {
        if record.revoked {
            return Err(AuthError::InvalidCredentials);
        }
        match record.expires_at {
            Some(e) => {
                if now_secs > e {
                    return Err(AuthError::InvalidCredentials);
                }
            },
            None => {},
        }
        Ok((record.owner_user.clone(), clone_strings(&record.permissions)))
    }
}

} // verus!

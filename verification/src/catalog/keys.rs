//! The reserved keys under which the catalog lives in the engine.

use crate::text::concat;
use vstd::prelude::*;

verus! {

/// The key of a user: `_sys.users:<username>`.
pub fn user_key(username: &str) -> (key: String)
    ensures
        key@ == "_sys.users:"@ + username@,
{
    concat("_sys.users:", username)
}

/// The key of a role: `_sys.roles:<name>`.
pub fn role_key(role_name: &str) -> (key: String)
    ensures
        key@ == "_sys.roles:"@ + role_name@,
{
    concat("_sys.roles:", role_name)
}

/// The key of a user's grants: `_sys.grants:<username>`.
pub fn grant_key(username: &str) -> (key: String)
    ensures
        key@ == "_sys.grants:"@ + username@,
{
    concat("_sys.grants:", username)
}

/// The key of an API key: `_sys.api_keys:<key id>`.
pub fn api_key_key(key_id: &str) -> (key: String)
    ensures
        key@ == "_sys.api_keys:"@ + key_id@,
{
    concat("_sys.api_keys:", key_id)
}

/// The key of the authentication settings. The catalog counts as set up
/// once this key exists.
pub fn auth_settings_key() -> (key: String)
    ensures
        key@ == "_sys.settings:auth"@,
{
    "_sys.settings:auth".to_owned()
}

/// The key of the audit settings.
pub fn audit_settings_key() -> (key: String)
    ensures
        key@ == "_sys.settings:audit"@,
{
    "_sys.settings:audit".to_owned()
}

} // verus!

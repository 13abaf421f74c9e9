//! Limits on connections.

use vstd::hash_map::StringHashMap;
use vstd::prelude::*;

verus! {

/// Seconds after which an idle connection of a role may be closed, where
/// the role's settings name none.
pub const DEFAULT_IDLE_TIMEOUT_SEC: u64 = 300;

/// The idle timeout of a role that names none: five minutes.
pub fn default_idle_timeout() -> (secs: u64)
    ensures
        secs == DEFAULT_IDLE_TIMEOUT_SEC,
{
    DEFAULT_IDLE_TIMEOUT_SEC
}

#[derive(Debug, Clone, Copy, PartialEq, Eq, Structural)]
pub struct RoleConnectionConfig {
    pub max_connections: Option<usize>,
    pub idle_timeout_sec: u64,
}

pub struct ConnectionConfig {
    pub max_connections: usize,
    pub idle_timeout_sec: u64,
    /// `idle_then_priority`, `fifo` or `priority_then_idle`.
    pub evict_policy: String,
    /// Limits for single roles, by role name.
    pub per_role: StringHashMap<RoleConnectionConfig>,
}

impl Default for ConnectionConfig {
    /// A thousand connections, five minutes of idling, eviction by idle
    /// time first, no limits of their own for roles.
    fn default() -> (c: Self)
        ensures
            c.max_connections == 1000,
            c.idle_timeout_sec == 300,
            c.evict_policy@ == "idle_then_priority"@,
            c.per_role@ == Map::<Seq<char>, RoleConnectionConfig>::empty(),
    {
        ConnectionConfig {
            max_connections: 1000,
            idle_timeout_sec: 300,
            evict_policy: "idle_then_priority".to_owned(),
            per_role: StringHashMap::new(),
        }
    }
}

impl ConnectionConfig {
    /// The idle timeout that holds for a role: the role's own where it has
    /// settings, the general one else.
    pub fn idle_timeout_for(&self, role: &str) -> (secs: u64)
        ensures
            secs == if self.per_role@.contains_key(role@) {
                self.per_role@[role@].idle_timeout_sec
            } else {
                self.idle_timeout_sec
            },
    {
        match self.per_role.get(role) {
            Some(r) => r.idle_timeout_sec,
            None => self.idle_timeout_sec,
        }
    }
}

} // verus!

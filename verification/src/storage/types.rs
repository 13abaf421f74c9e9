//! The stored value and the engine's settings.

use crate::clock::unix_nanos;
use vstd::prelude::*;

verus! {

/// Nanoseconds in a second.
pub const NANOS_PER_SEC: u64 = 1_000_000_000;

/// One stored value.
#[derive(Debug)]
pub struct KvEntry {
    pub value: Vec<u8>,
    /// Counts the writes to the key: 1 for the first, one more for each
    /// overwrite.
    pub version: u64,
    /// Nanoseconds since the Unix epoch.
    pub created_at: u64,
    /// Nanoseconds since the Unix epoch; `None` for an entry that stays.
    pub expires_at: Option<u64>,
}

/// A [`KvEntry`] as plain data.
pub struct KvEntryView {
    pub value: Seq<u8>,
    pub version: u64,
    pub created_at: u64,
    pub expires_at: Option<u64>,
}

impl View for KvEntry {
    type V = KvEntryView;

    open spec fn view(&self) -> KvEntryView {
        KvEntryView {
            value: self.value@,
            version: self.version,
            created_at: self.created_at,
            expires_at: self.expires_at,
        }
    }
}

/// The instant at which an entry written at `now` with the given time to
/// live, in nanoseconds, expires. No time to live, one of zero, and one that
/// reaches beyond the last instant a `u64` can name all mean that the entry
/// does not expire.
pub open spec fn expiry_at(now: u64, ttl_nanos: Option<u64>) -> Option<u64> {
    match ttl_nanos {
        Some(t) => if t > 0 && now + t <= u64::MAX {
            Some((now + t) as u64)
        } else {
            None
        },
        None => None,
    }
}

/// A time to live given in seconds, in nanoseconds; `None` where there is
/// none or where it is beyond what a `u64` holds.
pub open spec fn ttl_nanos_of(ttl_secs: Option<u64>) -> Option<u64> {
    match ttl_secs {
        Some(s) => if s * NANOS_PER_SEC <= u64::MAX {
            Some((s * NANOS_PER_SEC) as u64)
        } else {
            None
        },
        None => None,
    }
}

impl KvEntryView {
    /// An entry that expires does so after it was made.
    pub open spec fn wf(self) -> bool {
        self.expires_at matches Some(e) ==> e > self.created_at
    }

    /// Whether the entry is expired at `now`: time has gone strictly past
    /// its expiry.
    pub open spec fn is_expired_at(self, now: u64) -> bool {
        self.expires_at matches Some(e) && now > e
    }

    /// The first version of a value, written at `now`.
    pub open spec fn fresh(value: Seq<u8>, ttl_secs: Option<u64>, now: u64) -> KvEntryView {
        KvEntryView {
            value,
            version: 1,
            created_at: now,
            expires_at: expiry_at(now, ttl_nanos_of(ttl_secs)),
        }
    }
}

/// A time to live in seconds as nanoseconds.
pub fn ttl_nanos(ttl_secs: Option<u64>) -> (r: Option<u64>)
    ensures
        r == ttl_nanos_of(ttl_secs),
{
    match ttl_secs {
        Some(s) => s.checked_mul(NANOS_PER_SEC),
        None => None,
    }
}

/// The expiry of an entry written at `now`.
pub fn expiry(now: u64, ttl_nanos: Option<u64>) -> (r: Option<u64>)
    ensures
        r == expiry_at(now, ttl_nanos),
{
    match ttl_nanos {
        Some(t) => if t > 0 {
            now.checked_add(t)
        } else {
            None
        },
        None => None,
    }
}

impl KvEntry {
    /// The first version of a value, stamped with the current time. A time
    /// to live of zero seconds means no expiry.
    pub fn new(value: Vec<u8>, ttl_secs: Option<u64>) -> (e: Self)
        ensures
            e@ == KvEntryView::fresh(value@, ttl_secs, e.created_at),
            e@.wf(),
    {
        let now: u64 = unix_nanos();
        Self::new_at(value, ttl_secs, now)
    }

    /// The first version of a value, written at `now`.
    pub fn new_at(value: Vec<u8>, ttl_secs: Option<u64>, now: u64) -> (e: Self)
        ensures
            e@ == KvEntryView::fresh(value@, ttl_secs, now),
            e@.wf(),
    {
        KvEntry { value, version: 1, created_at: now, expires_at: expiry(now, ttl_nanos(ttl_secs)) }
    }

    /// Whether the entry is expired by the current time. An entry without an
    /// expiry never is.
    pub fn is_expired(&self) -> (expired: bool)
        ensures
            exists|now: u64| expired == #[trigger] self@.is_expired_at(now),
    {
        let now: u64 = unix_nanos();
        self.is_expired_at(now)
    }

    /// Whether the entry is expired at `now`.
    pub fn is_expired_at(&self, now: u64) -> (expired: bool)
        ensures
            expired == self@.is_expired_at(now),
    {
        match self.expires_at {
            Some(e) => now > e,
            None => false,
        }
    }
}

impl Clone for KvEntry {
    fn clone(&self) -> (c: Self)
        ensures
            c@ == self@,
    {
        KvEntry {
            value: self.value.clone(),
            version: self.version,
            created_at: self.created_at,
            expires_at: self.expires_at,
        }
    }
}

#[derive(Debug)]
pub struct StorageConfig {
    /// Number of shards; a power of two.
    pub num_shards: usize,
    pub snapshot_dir: String,
}

/// Whether `n` is a power of two.
pub open spec fn is_power_of_two(n: nat) -> bool
    decreases n,
{
    if n == 1 {
        true
    } else if n == 0 || n % 2 == 1 {
        false
    } else {
        is_power_of_two(n / 2)
    }
}

impl StorageConfig {
    /// Whether the settings can run an engine: the shard count is a power of
    /// two.
    pub fn is_valid(&self) -> (ok: bool)
        ensures
            ok == is_power_of_two(self.num_shards as nat),
    {
        let mut n: usize = self.num_shards;
        while n > 1 && n % 2 == 0
            invariant
                is_power_of_two(n as nat) == is_power_of_two(self.num_shards as nat),
            decreases n,
        {
            n = n / 2;
        }
        n == 1
    }
}

impl Clone for StorageConfig {
    fn clone(&self) -> (c: Self)
        ensures
            c.num_shards == self.num_shards,
            c.snapshot_dir@ == self.snapshot_dir@,
    {
        StorageConfig { num_shards: self.num_shards, snapshot_dir: self.snapshot_dir.clone() }
    }
}

impl Default for StorageConfig {
    /// 256 shards, snapshots under `data/snapshots`.
    fn default() -> (c: Self)
        ensures
            c.num_shards == 256,
            c.snapshot_dir@ == "data/snapshots"@,
    {
        StorageConfig { num_shards: 256, snapshot_dir: "data/snapshots".to_owned() }
    }
}

} // verus!

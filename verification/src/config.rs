//! The settings of the whole process.

use crate::storage::types::{is_power_of_two, StorageConfig};
use crate::wal::config::{SyncPolicy, WalConfig};
use vstd::prelude::*;

verus! {

#[derive(Debug)]
pub struct AppConfig {
    pub storage: StorageConfig,
    pub wal: WalConfig,
    pub background: BackgroundConfig,
}

#[derive(Debug)]
pub struct BackgroundConfig {
    /// Seconds between two checkpoints.
    pub checkpoint_interval_sec: u64,
    /// Milliseconds between two readings of the gauges.
    pub metrics_interval_ms: u64,
    pub s3: Option<S3Config>,
    pub replica: Option<ReplicaConfig>,
}

#[derive(Debug)]
pub struct S3Config {
    pub bucket: String,
    pub region: String,
    /// For stores that speak the same protocol under another address.
    pub endpoint: Option<String>,
    pub upload_after_snapshot: bool,
}

#[derive(Debug)]
pub struct ReplicaConfig {
    pub enabled: bool,
    pub bind_addr: String,
    /// Whether followers acknowledge every record.
    pub sync_mode: bool,
}

/// The smallest record there is: a header and a checksum around an empty
/// key and an empty value.
pub const SMALLEST_RECORD: u64 = 45;

impl AppConfig {
    /// What the settings have to keep for the store to run: a power of two
    /// of shards, segments that can hold at least the smallest record, and
    /// intervals that are not zero.
    pub open spec fn valid(self) -> bool {
        &&& is_power_of_two(self.storage.num_shards as nat)
        &&& self.wal.max_file_size >= SMALLEST_RECORD
        &&& self.background.checkpoint_interval_sec > 0
        &&& self.background.metrics_interval_ms > 0
        &&& (self.wal.sync_policy matches SyncPolicy::EveryMs(ms) ==> ms > 0)
    }

    /// Checks the settings.
    pub fn validate(&self) -> (ok: bool)
        ensures
            ok == self.valid(),
    {
        let sync_ok = match self.wal.sync_policy {
            SyncPolicy::EveryMs(ms) => ms > 0,
            _ => true,
        };
        self.storage.is_valid() && self.wal.max_file_size >= SMALLEST_RECORD
            && self.background.checkpoint_interval_sec > 0 && self.background.metrics_interval_ms
            > 0 && sync_ok
    }
}

impl Default for BackgroundConfig {
    /// A checkpoint every minute, the gauges every second, no upload and no
    /// followers.
    fn default() -> (c: Self)
        ensures
            c.checkpoint_interval_sec == 60,
            c.metrics_interval_ms == 1000,
            c.s3 is None,
            c.replica is None,
    {
        BackgroundConfig {
            checkpoint_interval_sec: 60,
            metrics_interval_ms: 1000,
            s3: None,
            replica: None,
        }
    }
}

impl Default for AppConfig {
    fn default() -> (c: Self)
        ensures
            c.valid(),
            c.storage.num_shards == 256,
            c.storage.snapshot_dir@ == "data/snapshots"@,
            c.background.checkpoint_interval_sec == 60,
    {
        let c = AppConfig {
            storage: StorageConfig::default(),
            wal: WalConfig::default(),
            background: BackgroundConfig::default(),
        };
        assert(is_power_of_two(256)) by {
            reveal_with_fuel(is_power_of_two, 10);
        }
        c
    }
}

} // verus!

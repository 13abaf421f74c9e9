//! Settings of the write-ahead log.

use vstd::prelude::*;

verus! {

/// When appended records are forced to disk.
#[derive(Debug, Clone, Copy, PartialEq, Eq, Structural)]
pub enum SyncPolicy {
    /// Before every append returns.
    EveryWrite,
    /// By a background task, at this interval in milliseconds.
    EveryMs(u64),
    /// Never; what was written last is lost in a crash.
    Never,
}

#[derive(Debug)]
pub struct WalConfig {
    pub dir: String,
    pub file_prefix: String,
    /// Largest size of one segment, in bytes.
    pub max_file_size: u64,
    pub sync_policy: SyncPolicy,
}

/// A [`WalConfig`] as plain data.
pub struct WalConfigView {
    pub dir: Seq<char>,
    pub file_prefix: Seq<char>,
    pub max_file_size: u64,
    pub sync_policy: SyncPolicy,
}

impl View for WalConfig {
    type V = WalConfigView;

    open spec fn view(&self) -> WalConfigView {
        WalConfigView {
            dir: self.dir@,
            file_prefix: self.file_prefix@,
            max_file_size: self.max_file_size,
            sync_policy: self.sync_policy,
        }
    }
}

impl Clone for WalConfig {
    fn clone(&self) -> (c: Self)
        ensures
            c@ == self@,
    {
        WalConfig {
            dir: self.dir.clone(),
            file_prefix: self.file_prefix.clone(),
            max_file_size: self.max_file_size,
            sync_policy: self.sync_policy,
        }
    }
}

impl Default for WalConfig {
    /// Segments of 128 MiB under `data/wal`, named `wal_<seq>`, forced to
    /// disk every 100 ms.
    fn default() -> (c: Self)
        ensures
            c@ == (WalConfigView {
                dir: "data/wal"@,
                file_prefix: "wal_"@,
                max_file_size: 134217728,
                sync_policy: SyncPolicy::EveryMs(100),
            }),
    {
        WalConfig {
            dir: "data/wal".to_owned(),
            file_prefix: "wal_".to_owned(),
            max_file_size: 134217728,
            sync_policy: SyncPolicy::EveryMs(100),
        }
    }
}

} // verus!

//! The gauges read off the store at intervals.

use crate::storage::engine::{total_keys, StorageEngine};
use vstd::prelude::*;

verus! {

/// An estimate of the bytes one key takes in memory.
pub const BYTES_PER_KEY: u64 = 100;

/// One reading of the gauges.
#[derive(Debug, Clone, Copy, PartialEq, Eq, Structural)]
pub struct MetricsSample {
    /// Bytes written to the active log segment.
    pub wal_size: i64,
    pub key_count: i64,
    /// Estimated bytes in memory: a hundred per key.
    pub memory_usage: i64,
}

/// A count as a gauge value: itself, or the largest value a gauge holds.
pub open spec fn as_gauge(n: int) -> i64 {
    if n <= i64::MAX {
        n as i64
    } else {
        i64::MAX
    }
}

fn gauge(n: u64) -> (g: i64)
    ensures
        g == as_gauge(n as int),
{
    if n <= i64::MAX as u64 {
        n as i64
    } else {
        i64::MAX
    }
}

pub struct MetricsWorker {
    interval_ms: u64,
    running: bool,
}

impl MetricsWorker {
    pub closed spec fn interval(&self) -> u64 {
        self.interval_ms
    }

    pub closed spec fn is_running(&self) -> bool {
        self.running
    }

    pub fn new(interval_ms: u64) -> (w: Self)
        ensures
            w.interval() == interval_ms,
            w.is_running(),
    {
        MetricsWorker { interval_ms, running: true }
    }

    pub fn interval_ms(&self) -> (ms: u64)
        ensures
            ms == self.interval(),
    {
        self.interval_ms
    }

    pub fn running(&self) -> (r: bool)
        ensures
            r == self.is_running(),
    {
        self.running
    }

    /// Reads the gauges: the log offset, the number of keys in all shards
    /// and the memory estimate. A value beyond the range of a gauge is
    /// shown as the largest value.
    pub fn sample(&self, engine: &StorageEngine, wal_offset: u64) -> (s: MetricsSample)
        ensures
            s.wal_size == as_gauge(wal_offset as int),
            s.key_count == as_gauge(total_keys(engine.shard_maps()) as int),
            s.memory_usage == as_gauge(total_keys(engine.shard_maps()) * BYTES_PER_KEY),
    {
        let keys: u64 = match engine.key_count() {
            Some(n) => n,
            None => u64::MAX,
        };
        let memory: u64 = match keys.checked_mul(BYTES_PER_KEY) {
            Some(m) => m,
            None => u64::MAX,
        };
        proof {
            let total = total_keys(engine.shard_maps());
            if total > i64::MAX {
                assert(total * BYTES_PER_KEY >= total) by (nonlinear_arith)
                    requires
                        total >= 0,
                ;
            }
        }
        MetricsSample {
            wal_size: gauge(wal_offset),
            key_count: gauge(keys),
            memory_usage: gauge(memory),
        }
    }

    pub fn shutdown(&mut self)
        ensures
            !final(self).is_running(),
            final(self).interval() == old(self).interval(),
    {
        self.running = false;
    }
}

} // verus!

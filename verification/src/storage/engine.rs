//! The storage engine: the shards, the routing of keys to them, and the
//! operations on the whole.
//!
//! The engine is plain sequential state. Reads take `&self`, mutations take
//! `&mut self`, so a mutation is seen whole or not at all. Every mutation
//! that a client path makes hands back the log record that describes it;
//! applying that record to the state before gives the state after, which is
//! what recovery and followers rely on. Time comes in from outside: each
//! operation has a form that takes the current time as an argument and a
//! form that reads the clock and calls the first.

use crate::clock::unix_nanos;
use crate::storage::error::{StorageError, StorageErrorView};
use crate::storage::hash::{hash_key, key_hash, shard_index};
use crate::storage::model::{
    apply_record, apply_to_shards, del_error, del_record, entry_of_record, event_of,
    event_of_record, queue_after_log, queue_of_list, queue_of_lists, queue_with, replay_shards,
    routed, set_entry, set_error, set_record, sweep_outcome, sweep_records, sweep_step, visible,
    MAX_KEY_LEN, ShardMap,
};
use crate::storage::shard::{PairView, Shard};
use crate::storage::ttl::{event_views, later_than, TtlEventView, TtlManager};
use crate::storage::types::{
    expiry, is_power_of_two, ttl_nanos, KvEntry, KvEntryView, StorageConfig,
};
use crate::wal::entry::{OpType, WalEntry, WalEntryView};
use crate::wal::replay::ReplayedEntry;
use vstd::prelude::*;

verus! {

/// The maps of a list of shards.
pub open spec fn shard_views(shards: Seq<Shard>) -> Seq<ShardMap> {
    Seq::new(shards.len(), |i: int| shards[i]@)
}

/// The entry lists of a list of shards.
pub open spec fn shard_lists(shards: Seq<Shard>) -> Seq<Seq<PairView>> {
    Seq::new(shards.len(), |i: int| shards[i].pairs())
}

/// The records of a list of replayed entries.
pub open spec fn record_views(entries: Seq<ReplayedEntry>) -> Seq<WalEntryView> {
    Seq::new(entries.len(), |i: int| entries[i].entry@)
}

/// The views of a list of records.
pub open spec fn wal_views(records: Seq<WalEntry>) -> Seq<WalEntryView> {
    Seq::new(records.len(), |i: int| records[i]@)
}

pub struct StorageEngine {
    shards: Vec<Shard>,
    ttl: TtlManager,
    read_only: bool,
}

impl View for StorageEngine {
    type V = ShardMap;

    /// The map a client sees: every key looked up in the shard of its hash.
    open spec fn view(&self) -> ShardMap {
        routed(self.shard_maps())
    }
}

impl StorageEngine {
    /// The content of each shard, in shard order.
    pub closed spec fn shard_maps(&self) -> Seq<ShardMap> {
        shard_views(self.shards@)
    }

    /// The pending expirations, latest first.
    pub closed spec fn ttl_events(&self) -> Seq<TtlEventView> {
        self.ttl.events()
    }

    /// Whether the engine refuses mutations from clients. It does once the
    /// log has failed for good: what can no longer be logged must not be
    /// written.
    pub closed spec fn is_read_only(&self) -> bool {
        self.read_only
    }

    /// Why the engine refuses a write to `key` at `now`, if it does.
    pub open spec fn set_refusal(&self, key: Seq<char>, now: u64) -> Option<StorageErrorView> {
        set_error(self.is_read_only(), self@, key, now)
    }

    /// Why the engine refuses a delete of `key` at `now`, if it does.
    pub open spec fn del_refusal(&self, key: Seq<char>, expected: Option<u64>, now: u64) -> Option<
        StorageErrorView,
    > {
        del_error(self.is_read_only(), self@, key, expected, now)
    }

    /// The engine has at least one shard.
    pub open spec fn wf(&self) -> bool {
        self.shard_maps().len() > 0
    }

    /// An empty engine with `config.num_shards` shards.
    pub fn new(config: StorageConfig) -> (engine: Self)
        requires
            is_power_of_two(config.num_shards as nat),
        ensures
            engine.wf(),
            engine.shard_maps() == Seq::new(
                config.num_shards as nat,
                |i: int| Map::<Seq<char>, KvEntryView>::empty(),
            ),
            engine.ttl_events() == Seq::<TtlEventView>::empty(),
            !engine.is_read_only(),
    {
        let mut shards: Vec<Shard> = Vec::new();
        let mut i: usize = 0;
        while i < config.num_shards
            invariant
                i <= config.num_shards,
                shards@.len() == i,
                forall|j: int| 0 <= j < i ==> shards@[j]@ == Map::<Seq<char>, KvEntryView>::empty(),
            decreases config.num_shards - i,
        {
            shards.push(Shard::new());
            i = i + 1;
        }
        let engine = StorageEngine { shards, ttl: TtlManager::new(), read_only: false };
        assert(engine.shard_maps() =~= Seq::new(
            config.num_shards as nat,
            |i: int| Map::<Seq<char>, KvEntryView>::empty(),
        ));
        engine
    }

    /// The expiry queue.
    pub fn ttl_manager(&self) -> (ttl: &TtlManager)
        ensures
            ttl.events() == self.ttl_events(),
    {
        &self.ttl
    }

    pub fn read_only(&self) -> (r: bool)
        ensures
            r == self.is_read_only(),
    {
        self.read_only
    }

    /// Makes the engine read-only, or writable again. The caller makes it
    /// read-only when writing the log keeps failing.
    pub fn set_read_only(&mut self, on: bool)
        ensures
            final(self).is_read_only() == on,
            final(self).shard_maps() == old(self).shard_maps(),
            final(self).shards_seq() == old(self).shards_seq(),
            final(self).ttl_events() == old(self).ttl_events(),
    {
        self.read_only = on;
    }

    /// The number of shards.
    pub fn num_shards(&self) -> (n: usize)
        ensures
            n == self.shard_maps().len(),
    {
        self.shards.len()
    }

    /// The number of keys held, expired ones included; `None` where the
    /// count does not fit a `u64`.
    pub fn key_count(&self) -> (n: Option<u64>)
        ensures
            n matches Some(total) ==> total == total_keys(self.shard_maps()),
            n is None ==> total_keys(self.shard_maps()) > u64::MAX,
    {
        let mut total: u64 = 0;
        let mut i: usize = 0;
        assert(self.shard_maps().take(0) =~= Seq::<ShardMap>::empty());
        while i < self.shards.len()
            invariant
                i <= self.shards@.len(),
                total == total_keys(self.shard_maps().take(i as int)),
            decreases self.shards@.len() - i,
        {
            let n: usize = self.shards[i].len();
            proof {
                assert(self.shard_maps().take(i + 1).drop_last() =~= self.shard_maps().take(
                    i as int,
                ));
                assert(self.shard_maps().take(i + 1).last() == self.shards@[i as int]@);
            }
            match total.checked_add(n as u64) {
                Some(t) => {
                    total = t;
                },
                None => {
                    proof {
                        lemma_total_keys_grows(self.shard_maps(), i + 1);
                    }
                    return None;
                },
            }
            i = i + 1;
        }
        assert(self.shard_maps().take(i as int) =~= self.shard_maps());
        Some(total)
    }

    /// The shard that holds `key`.
    fn get_shard(&self, key: &str) -> (i: usize)
        requires
            self.wf(),
        ensures
            i == shard_index(key@, self.shard_maps().len()),
            i < self.shards@.len(),
    {
        (hash_key(key) as usize) % self.shards.len()
    }

    /// The entry under `key`, unless it is absent or expired at `now`. The
    /// entry handed out is never an expired one. Reading changes nothing:
    /// an expired entry is left for the sweep to remove.
    pub fn get_at(&self, key: &str, now: u64) -> (r: Result<KvEntry, StorageError>)
        requires
            self.wf(),
        ensures
            match r {
                Ok(e) => visible(self@, key@, now) == Some(e@) && !e@.is_expired_at(now),
                Err(err) => visible(self@, key@, now) is None && err@
                    == StorageErrorView::KeyNotFound(key@),
            },
    {
        let i: usize = self.get_shard(key);
        match self.shards[i].get(key) {
            Some(entry) => {
                if entry.is_expired_at(now) {
                    Err(StorageError::KeyNotFound(key.to_owned()))
                } else {
                    Ok(entry)
                }
            },
            None => Err(StorageError::KeyNotFound(key.to_owned())),
        }
    }

    /// Whether a reader at `now` sees an entry under `key`.
    pub fn exists_at(&self, key: &str, now: u64) -> (r: bool)
        requires
            self.wf(),
        ensures
            r == (visible(self@, key@, now) is Some),
    {
        let i: usize = self.get_shard(key);
        match self.shards[i].get(key) {
            Some(entry) => !entry.is_expired_at(now),
            None => false,
        }
    }

    /// Stores `value` under `key` at `now` and hands back the record to log.
    ///
    /// The entry gets the version after the one a reader sees there, or 1.
    /// A time to live of zero seconds, or one that reaches beyond the range
    /// of the clock, means no expiry. An entry that expires leaves an event
    /// in the expiry queue. A read-only engine refuses the write.
    pub fn set_at(&mut self, key: &str, value: Vec<u8>, ttl_secs: Option<u64>, now: u64) -> (r:
        Result<WalEntry, StorageError>)
        requires
            old(self).wf(),
        ensures
            final(self).wf(),
            final(self).is_read_only() == old(self).is_read_only(),
            match r {
                Ok(rec) => {
                    let entry = set_entry(old(self)@, key@, value@, ttl_secs, now);
                    &&& old(self).set_refusal(key@, now) is None
                    &&& rec@ == set_record(key@, entry)
                    &&& entry_of_record(rec@) == entry
                    &&& rec@.wf()
                    &&& final(self).shard_maps() == apply_to_shards(old(self).shard_maps(), rec@)
                    &&& final(self)@ == old(self)@.insert(key@, entry)
                    &&& final(self).ttl_events() == queue_with(
                        old(self).ttl_events(),
                        event_of(key@, entry),
                    )
                },
                Err(e) => {
                    &&& old(self).set_refusal(key@, now) == Some(e@)
                    &&& final(self).shard_maps() == old(self).shard_maps()
                    &&& final(self).ttl_events() == old(self).ttl_events()
                },
            },
    {
        if self.read_only {
            return Err(StorageError::Io("engine is read-only".to_owned()));
        }
        if key.as_bytes().len() > MAX_KEY_LEN {
            return Err(StorageError::Serialization("key longer than 65535 bytes".to_owned()));
        }
        let i: usize = self.get_shard(key);
        let version: u64 = match self.shards[i].get(key) {
            Some(live) => {
                if live.is_expired_at(now) {
                    1
                } else if live.version == u64::MAX {
                    return Err(StorageError::Concurrency("version counter exhausted".to_owned()));
                } else {
                    live.version + 1
                }
            },
            None => 1,
        };
        let expires_at = expiry(now, ttl_nanos(ttl_secs));
        let ttl = match expires_at {
            Some(e) => Some(e - now),
            None => None,
        };
        let record = WalEntry {
            timestamp: now,
            key: key.to_owned(),
            value: value.clone(),
            version,
            ttl,
            op_type: OpType::Put,
        };
        let entry = KvEntry { value, version, created_at: now, expires_at };
        let ghost maps = self.shard_maps();
        let ghost stored = entry@;
        self.shards[i].set(key.to_owned(), entry);
        if let Some(e) = expires_at {
            self.ttl.add(key.to_owned(), e);
        }
        proof {
            assert(self.shard_maps() =~= apply_to_shards(maps, record@));
            lemma_routed_update(maps, key@, apply_record(maps[i as int], record@));
            assert(routed(self.shard_maps()) =~= routed(maps).insert(key@, stored));
        }
        Ok(record)
    }

    /// Removes `key` at `now` and hands back the record to log.
    ///
    /// Where a reader sees no entry the key is not found; an expired entry
    /// stays for the sweep. Where `expected_version` is given and differs
    /// from the stored version, nothing is removed.
    pub fn del_at(&mut self, key: &str, expected_version: Option<u64>, now: u64) -> (r: Result<
        WalEntry,
        StorageError,
    >)
        requires
            old(self).wf(),
        ensures
            final(self).wf(),
            final(self).is_read_only() == old(self).is_read_only(),
            final(self).ttl_events() == old(self).ttl_events(),
            match r {
                Ok(rec) => {
                    &&& old(self).del_refusal(key@, expected_version, now) is None
                    &&& rec@ == del_record(key@, old(self)@[key@].version, now)
                    &&& final(self).shard_maps() == apply_to_shards(old(self).shard_maps(), rec@)
                    &&& final(self)@ == old(self)@.remove(key@)
                },
                Err(e) => {
                    &&& old(self).del_refusal(key@, expected_version, now) == Some(e@)
                    &&& final(self).shard_maps() == old(self).shard_maps()
                },
            },
    {
        if self.read_only {
            return Err(StorageError::Io("engine is read-only".to_owned()));
        }
        let i: usize = self.get_shard(key);
        let version: u64 = match self.shards[i].get(key) {
            Some(live) => {
                if live.is_expired_at(now) {
                    return Err(StorageError::KeyNotFound(key.to_owned()));
                }
                live.version
            },
            None => {
                return Err(StorageError::KeyNotFound(key.to_owned()));
            },
        };
        match expected_version {
            Some(v) => {
                if v != version {
                    return Err(
                        StorageError::CasFailed { key: key.to_owned(), expected: v, got: version },
                    );
                }
            },
            None => {},
        }
        let record = WalEntry {
            timestamp: now,
            key: key.to_owned(),
            value: Vec::new(),
            version,
            ttl: None,
            op_type: OpType::Del,
        };
        let ghost maps = self.shard_maps();
        self.shards[i].del(key);
        proof {
            assert(record@.value =~= Seq::<u8>::empty());
            assert(self.shard_maps() =~= apply_to_shards(maps, record@));
            lemma_routed_update(maps, key@, apply_record(maps[i as int], record@));
            assert(routed(self.shard_maps()) =~= routed(maps).remove(key@));
        }
        Ok(record)
    }

    /// The entry under `key`, read at the current time. See [`Self::get_at`].
    pub fn get(&self, key: &str) -> (r: Result<KvEntry, StorageError>)
        requires
            self.wf(),
        ensures
            exists|now: u64|
                match r {
                    Ok(e) => #[trigger] visible(self@, key@, now) == Some(e@)
                        && !e@.is_expired_at(now),
                    Err(err) => visible(self@, key@, now) is None && err@
                        == StorageErrorView::KeyNotFound(key@),
                },
    {
        let now: u64 = unix_nanos();
        self.get_at(key, now)
    }

    /// Whether a reader sees an entry under `key` at the current time. See
    /// [`Self::exists_at`].
    pub fn exists_now(&self, key: &str) -> (r: bool)
        requires
            self.wf(),
        ensures
            exists|now: u64| r == (#[trigger] visible(self@, key@, now) is Some),
    {
        let now: u64 = unix_nanos();
        self.exists_at(key, now)
    }

    /// Stores `value` under `key` at the current time. See [`Self::set_at`],
    /// which also hands back the record to log.
    pub fn set(&mut self, key: &str, value: Vec<u8>, ttl_secs: Option<u64>) -> (r: Result<
        (),
        StorageError,
    >)
        requires
            old(self).wf(),
        ensures
            final(self).wf(),
            final(self).is_read_only() == old(self).is_read_only(),
            exists|now: u64|
                {
                    &&& final(self).shard_maps() == #[trigger] after_set(
                        old(self).is_read_only(),
                        old(self).shard_maps(),
                        key@,
                        value@,
                        ttl_secs,
                        now,
                    )
                    &&& match r {
                        Ok(_) => old(self).set_refusal(key@, now) is None,
                        Err(e) => old(self).set_refusal(key@, now) == Some(e@),
                    }
                },
    {
        let now: u64 = unix_nanos();
        let ghost before = self.shard_maps();
        let r = match self.set_at(key, value, ttl_secs, now) {
            Ok(_) => Ok(()),
            Err(e) => Err(e),
        };
        assert(self.shard_maps() == after_set(self.read_only, before, key@, value@, ttl_secs, now));
        r
    }

    /// Removes `key` at the current time. See [`Self::del_at`], which also
    /// hands back the record to log.
    pub fn del(&mut self, key: &str, expected_version: Option<u64>) -> (r: Result<
        (),
        StorageError,
    >)
        requires
            old(self).wf(),
        ensures
            final(self).wf(),
            final(self).is_read_only() == old(self).is_read_only(),
            exists|now: u64|
                {
                    &&& final(self).shard_maps() == #[trigger] after_del(
                        old(self).is_read_only(),
                        old(self).shard_maps(),
                        key@,
                        expected_version,
                        now,
                    )
                    &&& match r {
                        Ok(_) => old(self).del_refusal(key@, expected_version, now) is None,
                        Err(e) => old(self).del_refusal(key@, expected_version, now) == Some(e@),
                    }
                },
    {
        let now: u64 = unix_nanos();
        let ghost before = self.shard_maps();
        let r = match self.del_at(key, expected_version, now) {
            Ok(_) => Ok(()),
            Err(e) => Err(e),
        };
        assert(self.shard_maps() == after_del(self.read_only, before, key@, expected_version, now));
        r
    }

    /// Takes off and removes what is due at the current time. See
    /// [`Self::sweep_at`].
    pub fn sweep(&mut self) -> (records: Vec<WalEntry>)
        requires
            old(self).wf(),
        ensures
            final(self).wf(),
            final(self).is_read_only() == old(self).is_read_only(),
            final(self).shard_maps() == replay_shards(
                old(self).shard_maps(),
                wal_views(records@),
            ),
            exists|now: u64|
                (final(self).ttl_events(), wal_views(records@)) == #[trigger] sweep_outcome(
                    old(self).is_read_only(),
                    old(self).shard_maps(),
                    old(self).ttl_events(),
                    now,
                ),
    {
        let now: u64 = unix_nanos();
        let ghost maps = self.shard_maps();
        let ghost queue = self.ttl_events();
        let records = self.sweep_at(now);
        assert((self.ttl_events(), wal_views(records@)) == sweep_outcome(
            self.read_only,
            maps,
            queue,
            now,
        ));
        records
    }

    /// Applies one log record, as recovery and followers do. The record's
    /// own version and times are taken over, nothing is computed anew, and
    /// nothing is logged. A delete of a key that is not there is no error,
    /// so a record may be applied again without harm.
    pub fn apply_wal_entry(&mut self, entry: &WalEntry) -> (r: Result<(), StorageError>)
        requires
            old(self).wf(),
        ensures
            final(self).wf(),
            final(self).is_read_only() == old(self).is_read_only(),
            r is Ok,
            final(self).shard_maps() == apply_to_shards(old(self).shard_maps(), entry@),
            final(self).ttl_events() == queue_with(
                old(self).ttl_events(),
                event_of_record(entry@),
            ),
    {
        let i: usize = self.get_shard(entry.key.as_str());
        let ghost maps = self.shard_maps();
        match entry.op_type {
            OpType::Del => {
                self.shards[i].del(entry.key.as_str());
            },
            _ => {
                let expires_at = expiry(entry.timestamp, entry.ttl);
                let stored = KvEntry {
                    value: entry.value.clone(),
                    version: entry.version,
                    created_at: entry.timestamp,
                    expires_at,
                };
                self.shards[i].set(entry.key.clone(), stored);
                if let Some(e) = expires_at {
                    self.ttl.add(entry.key.clone(), e);
                }
            },
        }
        assert(self.shard_maps() =~= apply_to_shards(maps, entry@));
        Ok(())
    }

    /// Applies the records of a scan in order.
    pub fn replay(&mut self, entries: &Vec<ReplayedEntry>)
        requires
            old(self).wf(),
        ensures
            final(self).wf(),
            final(self).is_read_only() == old(self).is_read_only(),
            final(self).shard_maps() == replay_shards(
                old(self).shard_maps(),
                record_views(entries@),
            ),
            final(self).ttl_events() == queue_after_log(
                old(self).ttl_events(),
                record_views(entries@),
            ),
    {
        let ghost log = record_views(entries@);
        let mut i: usize = 0;
        assert(log.take(0) =~= Seq::<WalEntryView>::empty());
        while i < entries.len()
            invariant
                i <= entries@.len(),
                self.wf(),
                self.is_read_only() == old(self).is_read_only(),
                log == record_views(entries@),
                self.shard_maps() == replay_shards(old(self).shard_maps(), log.take(i as int)),
                self.ttl_events() == queue_after_log(old(self).ttl_events(), log.take(i as int)),
            decreases entries@.len() - i,
        {
            proof {
                assert(log.take(i + 1).drop_last() =~= log.take(i as int));
                assert(log.take(i + 1).last() == entries@[i as int].entry@);
            }
            let _ = self.apply_wal_entry(&entries[i].entry);
            i = i + 1;
        }
        assert(log.take(i as int) =~= log);
    }

    /// Takes the events that are due at `now` off the queue and removes the
    /// entries they stand for. An event removes its entry only where the
    /// live entry still expires at the event's instant; a stale event does
    /// nothing. The deletes are handed back as records to log. A read-only
    /// engine sweeps nothing and keeps its queue.
    pub fn sweep_at(&mut self, now: u64) -> (records: Vec<WalEntry>)
        requires
            old(self).wf(),
        ensures
            final(self).wf(),
            final(self).is_read_only() == old(self).is_read_only(),
            final(self).shard_maps() == replay_shards(
                old(self).shard_maps(),
                wal_views(records@),
            ),
            (final(self).ttl_events(), wal_views(records@)) == sweep_outcome(
                old(self).is_read_only(),
                old(self).shard_maps(),
                old(self).ttl_events(),
                now,
            ),
    {
        if self.read_only {
            let none: Vec<WalEntry> = Vec::new();
            assert(wal_views(none@) =~= Seq::<WalEntryView>::empty());
            return none;
        }
        let due = self.ttl.pop_expired(now);
        let ghost events = event_views(due@);
        let ghost start = self.shard_maps();
        let mut records: Vec<WalEntry> = Vec::new();
        let mut k: usize = 0;
        assert(events.skip(0) =~= events);
        assert(wal_views(records@) =~= Seq::<WalEntryView>::empty());
        while k < due.len()
            invariant
                k <= due@.len(),
                self.wf(),
                !self.is_read_only(),
                events == event_views(due@),
                self.ttl_events() == old(self).ttl_events().take(
                    later_than(old(self).ttl_events(), now) as int,
                ),
                self.shard_maps() == replay_shards(start, wal_views(records@)),
                sweep_records(start, events, now) == wal_views(records@) + sweep_records(
                    self.shard_maps(),
                    events.skip(k as int),
                    now,
                ),
            decreases due@.len() - k,
        {
            let event = &due[k];
            let ghost maps = self.shard_maps();
            let ghost done = wal_views(records@);
            let ghost rest = events.skip(k as int);
            proof {
                assert(rest[0] == event@);
                assert(rest.skip(1) =~= events.skip(k + 1));
            }
            let i: usize = self.get_shard(event.key.as_str());
            let hit: Option<u64> = match self.shards[i].get(event.key.as_str()) {
                Some(live) => match live.expires_at {
                    Some(e) => if e == event.expires_at {
                        Some(live.version)
                    } else {
                        None
                    },
                    None => None,
                },
                None => None,
            };
            match hit {
                Some(version) => {
                    let record = WalEntry {
                        timestamp: now,
                        key: event.key.clone(),
                        value: Vec::new(),
                        version,
                        ttl: None,
                        op_type: OpType::Del,
                    };
                    self.shards[i].del(event.key.as_str());
                    proof {
                        assert(record@.value =~= Seq::<u8>::empty());
                        assert(sweep_step(maps, event@, now) == Some(record@));
                        assert(self.shard_maps() =~= apply_to_shards(maps, record@));
                    }
                    records.push(record);
                    proof {
                        assert(wal_views(records@) =~= done.push(record@));
                        assert(wal_views(records@).drop_last() =~= done);
                        assert(seq![record@] + sweep_records(
                            self.shard_maps(),
                            rest.skip(1),
                            now,
                        ) == sweep_records(maps, rest, now));
                        assert(done + (seq![record@] + sweep_records(
                            self.shard_maps(),
                            rest.skip(1),
                            now,
                        )) =~= done.push(record@) + sweep_records(
                            self.shard_maps(),
                            rest.skip(1),
                            now,
                        ));
                    }
                },
                None => {
                    assert(sweep_step(maps, event@, now) is None);
                },
            }
            k = k + 1;
        }
        proof {
            assert(events.skip(k as int) =~= Seq::<TtlEventView>::empty());
            assert(wal_views(records@) + Seq::<WalEntryView>::empty() =~= wal_views(records@));
        }
        records
    }

    /// Builds the expiry queue anew from the entries held: every entry that
    /// expires gets one event, shard by shard in the order of the shards'
    /// lists. Events of entries that are gone, of which the old queue may
    /// have held many, are dropped with the old queue.
    pub fn rebuild_ttl_queue(&mut self)
        ensures
            final(self).ttl_events() == queue_of_lists(
                Seq::<TtlEventView>::empty(),
                shard_lists(old(self).shards_seq()),
            ),
            final(self).shards_seq() == old(self).shards_seq(),
            final(self).shard_maps() == old(self).shard_maps(),
            final(self).is_read_only() == old(self).is_read_only(),
    {
        let mut queue = TtlManager::new();
        let ghost lists = shard_lists(self.shards@);
        let ghost none = Seq::<TtlEventView>::empty();
        let mut s: usize = 0;
        assert(lists.take(0) =~= Seq::<Seq<PairView>>::empty());
        while s < self.shards.len()
            invariant
                s <= self.shards@.len(),
                lists == shard_lists(self.shards@),
                queue.events() == queue_of_lists(none, lists.take(s as int)),
            decreases self.shards@.len() - s,
        {
            let shard = &self.shards[s];
            let n: usize = shard.len();
            let ghost list = shard.pairs();
            let ghost base = queue.events();
            let mut i: usize = 0;
            assert(list.take(0) =~= Seq::<PairView>::empty());
            while i < n
                invariant
                    i <= n,
                    n == list.len(),
                    list == shard.pairs(),
                    queue.events() == queue_of_list(base, list.take(i as int)),
                decreases n - i,
            {
                proof {
                    assert(list.take(i + 1).drop_last() =~= list.take(i as int));
                }
                match shard.entry_at(i).expires_at {
                    Some(e) => {
                        queue.add(shard.key_at(i).to_owned(), e);
                    },
                    None => {},
                }
                i = i + 1;
            }
            proof {
                assert(list.take(i as int) =~= list);
                assert(lists.take(s + 1).drop_last() =~= lists.take(s as int));
                assert(lists.take(s + 1).last() == list);
            }
            s = s + 1;
        }
        assert(lists.take(s as int) =~= lists);
        self.ttl = queue;
    }

    /// A deep copy of every shard, in shard order.
    pub fn snapshot(&self) -> (state: Vec<Shard>)
        ensures
            shard_views(state@) == self.shard_maps(),
            shard_lists(state@) == shard_lists(self.shards_seq()),
    {
        let mut state: Vec<Shard> = Vec::new();
        let mut i: usize = 0;
        while i < self.shards.len()
            invariant
                i <= self.shards@.len(),
                state@.len() == i,
                forall|j: int|
                    0 <= j < i ==> state@[j]@ == self.shards@[j]@ && state@[j].pairs()
                        == self.shards@[j].pairs(),
            decreases self.shards@.len() - i,
        {
            state.push(self.shards[i].snapshot());
            i = i + 1;
        }
        assert(shard_views(state@) =~= self.shard_maps());
        assert(shard_lists(state@) =~= shard_lists(self.shards@));
        state
    }

    /// The shards themselves, for contracts that speak of their entry lists.
    pub closed spec fn shards_seq(&self) -> Seq<Shard> {
        self.shards@
    }

    /// Replaces the content of every shard. The caller sees to it that no
    /// operation runs meanwhile, and hands in as many shards as the engine
    /// has. The expiry queue is left as it is.
    pub fn load_from_snapshot(&mut self, state: Vec<Shard>)
        requires
            state@.len() == old(self).shard_maps().len(),
        ensures
            final(self).shard_maps() == shard_views(state@),
            final(self).shards_seq() == state@,
            final(self).ttl_events() == old(self).ttl_events(),
            final(self).is_read_only() == old(self).is_read_only(),
            old(self).wf() ==> final(self).wf(),
    {
        self.shards = state;
    }
}

/// The shards after a write at `now`: the write's record applied, or
/// nothing changed where the write is refused.
pub open spec fn after_set(
    read_only: bool,
    maps: Seq<ShardMap>,
    key: Seq<char>,
    value: Seq<u8>,
    ttl_secs: Option<u64>,
    now: u64,
) -> Seq<ShardMap> {
    if set_error(read_only, routed(maps), key, now) is None {
        apply_to_shards(maps, set_record(key, set_entry(routed(maps), key, value, ttl_secs, now)))
    } else {
        maps
    }
}

/// The shards after a delete at `now`: the delete's record applied, or
/// nothing changed where the delete is refused.
pub open spec fn after_del(
    read_only: bool,
    maps: Seq<ShardMap>,
    key: Seq<char>,
    expected: Option<u64>,
    now: u64,
) -> Seq<ShardMap> {
    if del_error(read_only, routed(maps), key, expected, now) is None {
        apply_to_shards(maps, del_record(key, routed(maps)[key].version, now))
    } else {
        maps
    }
}

/// The number of keys in a list of shards.
pub open spec fn total_keys(maps: Seq<ShardMap>) -> nat
    decreases maps.len(),
{
    if maps.len() == 0 {
        0
    } else {
        total_keys(maps.drop_last()) + maps.last().len()
    }
}

/// The count of keys never shrinks as more shards are counted.
proof fn lemma_total_keys_grows(maps: Seq<ShardMap>, n: int)
    requires
        0 <= n <= maps.len(),
    ensures
        total_keys(maps.take(n)) <= total_keys(maps),
    decreases maps.len() - n,
{
    if n < maps.len() {
        assert(maps.take(n + 1).drop_last() =~= maps.take(n));
        lemma_total_keys_grows(maps, n + 1);
    } else {
        assert(maps.take(n) =~= maps);
    }
}

/// A change to the shard of `key` that touches only `key` shows in the
/// client's map as a change to `key` alone.
pub proof fn lemma_routed_update(maps: Seq<ShardMap>, key: Seq<char>, changed: ShardMap)
    requires
        maps.len() > 0,
        forall|k: Seq<char>|
            k != key ==> (changed.contains_key(k) <==> maps[shard_index(
                key,
                maps.len(),
            )].contains_key(k)),
        forall|k: Seq<char>|
            k != key && changed.contains_key(k) ==> changed[k] == maps[shard_index(
                key,
                maps.len(),
            )][k],
    ensures
        ({
            let after = routed(maps.update(shard_index(key, maps.len()), changed));
            &&& forall|k: Seq<char>|
                k != key ==> (after.contains_key(k) <==> routed(maps).contains_key(k))
            &&& forall|k: Seq<char>|
                k != key && after.contains_key(k) ==> after[k] == routed(maps)[k]
            &&& after.contains_key(key) <==> changed.contains_key(key)
            &&& after.contains_key(key) ==> after[key] == changed[key]
        }),
{
    let n = maps.len();
    let i = shard_index(key, n);
    let updated = maps.update(i, changed);
    assert(0 <= i < n) by {
        assert(0 <= (key_hash(key) as int) % (n as int) < n);
    }
    assert forall|k: Seq<char>| k != key implies (routed(updated).contains_key(k) <==> routed(
        maps,
    ).contains_key(k)) && (routed(updated).contains_key(k) ==> routed(updated)[k] == routed(
        maps,
    )[k]) by {
        let j = shard_index(k, n);
        assert(0 <= (key_hash(k) as int) % (n as int) < n);
        if j == i {
            assert(updated[j] == changed);
        } else {
            assert(updated[j] == maps[j]);
        }
    }
}

} // verus!

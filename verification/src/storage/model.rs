//! The store as mathematics: what a record does to a map, what a log does to
//! the shards, and what a reader may see.

use crate::storage::error::StorageErrorView;
use crate::storage::hash::shard_index;
use crate::storage::shard::PairView;
use crate::storage::ttl::{later_than, TtlEventView};
use crate::storage::types::{expiry_at, ttl_nanos_of, KvEntryView};
use crate::wal::entry::{OpType, WalEntryView};
use vstd::prelude::*;
use vstd::utf8::encode_utf8;

verus! {

/// The content of one shard.
pub type ShardMap = Map<Seq<char>, KvEntryView>;

/// Longest key, in bytes of its UTF-8 form.
pub const MAX_KEY_LEN: usize = 65535;

/// The map a client sees through a list of shards: a key is looked up in the
/// one shard its hash names.
pub open spec fn routed(maps: Seq<ShardMap>) -> ShardMap {
    Map::new(
        |k: Seq<char>| maps[shard_index(k, maps.len())].contains_key(k),
        |k: Seq<char>| maps[shard_index(k, maps.len())][k],
    )
}

/// The entry under `key` as a reader at `now` sees it: present and not
/// expired.
pub open spec fn visible(m: ShardMap, key: Seq<char>, now: u64) -> Option<KvEntryView> {
    if m.contains_key(key) && !m[key].is_expired_at(now) {
        Some(m[key])
    } else {
        None
    }
}

/// The entry that a record stores: the record's value and version, made at
/// the record's time, expiring its time to live later.
pub open spec fn entry_of_record(r: WalEntryView) -> KvEntryView {
    KvEntryView {
        value: r.value,
        version: r.version,
        created_at: r.timestamp,
        expires_at: expiry_at(r.timestamp, r.ttl),
    }
}

/// What a record does to a map. A delete removes the key, whether it was
/// there or not. Every other operation stores the record's entry under the
/// key: increment and compare-and-swap records are replayed as plain
/// stores.
pub open spec fn apply_record(m: ShardMap, r: WalEntryView) -> ShardMap {
    if r.op_type == OpType::Del {
        m.remove(r.key)
    } else {
        m.insert(r.key, entry_of_record(r))
    }
}

/// What a record does to the shards: it is applied to the shard of its key,
/// the others stay.
pub open spec fn apply_to_shards(maps: Seq<ShardMap>, r: WalEntryView) -> Seq<ShardMap> {
    let i = shard_index(r.key, maps.len());
    maps.update(i, apply_record(maps[i], r))
}

/// What a log does to the shards: its records applied in order.
pub open spec fn replay_shards(maps: Seq<ShardMap>, log: Seq<WalEntryView>) -> Seq<ShardMap>
    decreases log.len(),
{
    if log.len() == 0 {
        maps
    } else {
        apply_to_shards(replay_shards(maps, log.drop_last()), log.last())
    }
}

/// Why a write to `key` at `now` is refused, if it is: the engine is
/// read-only, the key is too long for a record, or the version counter of
/// the entry it would overwrite is used up.
pub open spec fn set_error(read_only: bool, m: ShardMap, key: Seq<char>, now: u64) -> Option<
    StorageErrorView,
> {
    if read_only {
        Some(StorageErrorView::Io("engine is read-only"@))
    } else if encode_utf8(key).len() > MAX_KEY_LEN {
        Some(StorageErrorView::Serialization("key longer than 65535 bytes"@))
    } else if visible(m, key, now) matches Some(e) && e.version == u64::MAX {
        Some(StorageErrorView::Concurrency("version counter exhausted"@))
    } else {
        None
    }
}

/// The entry that a write at `now` stores: one version beyond the entry a
/// reader sees there, or version 1 where a reader sees none.
pub open spec fn set_entry(
    m: ShardMap,
    key: Seq<char>,
    value: Seq<u8>,
    ttl_secs: Option<u64>,
    now: u64,
) -> KvEntryView {
    KvEntryView {
        value,
        version: match visible(m, key, now) {
            Some(e) => (e.version + 1) as u64,
            None => 1,
        },
        created_at: now,
        expires_at: expiry_at(now, ttl_nanos_of(ttl_secs)),
    }
}

/// The log record of a write that stored `entry` under `key`.
pub open spec fn set_record(key: Seq<char>, entry: KvEntryView) -> WalEntryView {
    WalEntryView {
        timestamp: entry.created_at,
        key,
        value: entry.value,
        version: entry.version,
        ttl: match entry.expires_at {
            Some(e) => Some((e - entry.created_at) as u64),
            None => None,
        },
        op_type: OpType::Put,
    }
}

/// The log record of a delete at `now` that removed version `version`.
pub open spec fn del_record(key: Seq<char>, version: u64, now: u64) -> WalEntryView {
    WalEntryView {
        timestamp: now,
        key,
        value: Seq::empty(),
        version,
        ttl: None,
        op_type: OpType::Del,
    }
}

/// Why a delete of `key` at `now` is refused, if it is: the engine is
/// read-only, a reader sees no entry there, or the caller expected another
/// version than the one stored.
pub open spec fn del_error(
    read_only: bool,
    m: ShardMap,
    key: Seq<char>,
    expected: Option<u64>,
    now: u64,
) -> Option<StorageErrorView> {
    if read_only {
        Some(StorageErrorView::Io("engine is read-only"@))
    } else {
        match visible(m, key, now) {
            None => Some(StorageErrorView::KeyNotFound(key)),
            Some(e) => match expected {
                Some(v) => if v != e.version {
                    Some(StorageErrorView::CasFailed { key, expected: v, got: e.version })
                } else {
                    None
                },
                None => None,
            },
        }
    }
}

/// The event that a stored entry leaves in the expiry queue, if it expires.
pub open spec fn event_of(key: Seq<char>, entry: KvEntryView) -> Option<TtlEventView> {
    match entry.expires_at {
        Some(e) => Some(TtlEventView { key, expires_at: e }),
        None => None,
    }
}

/// The delete that a due event leads to: one only where the live entry
/// still expires at the event's instant.
pub open spec fn sweep_step(maps: Seq<ShardMap>, event: TtlEventView, now: u64) -> Option<
    WalEntryView,
> {
    let m = maps[shard_index(event.key, maps.len())];
    if m.contains_key(event.key) && m[event.key].expires_at == Some(event.expires_at) {
        Some(del_record(event.key, m[event.key].version, now))
    } else {
        None
    }
}

/// The deletes that a run of due events leads to, in order, each judged
/// against the shards as the deletes before it left them.
pub open spec fn sweep_records(maps: Seq<ShardMap>, due: Seq<TtlEventView>, now: u64) -> Seq<
    WalEntryView,
>
    decreases due.len(),
{
    if due.len() == 0 {
        Seq::empty()
    } else {
        match sweep_step(maps, due[0], now) {
            Some(r) => seq![r] + sweep_records(apply_to_shards(maps, r), due.skip(1), now),
            None => sweep_records(maps, due.skip(1), now),
        }
    }
}

/// The event that a replayed record leaves in the expiry queue: that of the
/// entry it stores, where it stores one that expires.
pub open spec fn event_of_record(r: WalEntryView) -> Option<TtlEventView> {
    if r.op_type == OpType::Del {
        None
    } else {
        event_of(r.key, entry_of_record(r))
    }
}

/// The expiry queue after one more event, if there is one: it goes behind
/// every event that expires later.
pub open spec fn queue_with(queue: Seq<TtlEventView>, event: Option<TtlEventView>) -> Seq<
    TtlEventView,
> {
    match event {
        Some(ev) => queue.insert(later_than(queue, ev.expires_at) as int, ev),
        None => queue,
    }
}

/// The expiry queue after a log was replayed: every record's event queued
/// in order.
pub open spec fn queue_after_log(queue: Seq<TtlEventView>, log: Seq<WalEntryView>) -> Seq<
    TtlEventView,
>
    decreases log.len(),
{
    if log.len() == 0 {
        queue
    } else {
        queue_with(queue_after_log(queue, log.drop_last()), event_of_record(log.last()))
    }
}

/// The expiry queue after the entries of a list were queued, in order, on
/// top of `queue`. Entries that do not expire leave no event.
pub open spec fn queue_of_list(queue: Seq<TtlEventView>, list: Seq<PairView>) -> Seq<TtlEventView>
    decreases list.len(),
{
    if list.len() == 0 {
        queue
    } else {
        let before = queue_of_list(queue, list.drop_last());
        match event_of(list.last().key, list.last().entry) {
            Some(ev) => before.insert(later_than(before, ev.expires_at) as int, ev),
            None => before,
        }
    }
}

/// The expiry queue after the entries of every shard were queued, shard by
/// shard, on top of `queue`.
pub open spec fn queue_of_lists(queue: Seq<TtlEventView>, lists: Seq<Seq<PairView>>) -> Seq<
    TtlEventView,
>
    decreases lists.len(),
{
    if lists.len() == 0 {
        queue
    } else {
        queue_of_list(queue_of_lists(queue, lists.drop_last()), lists.last())
    }
}

/// What one sweep at `now` leaves and hands out: the queue that stays and
/// the deletes that are made. A read-only engine sweeps nothing.
pub open spec fn sweep_outcome(
    read_only: bool,
    maps: Seq<ShardMap>,
    queue: Seq<TtlEventView>,
    now: u64,
) -> (Seq<TtlEventView>, Seq<WalEntryView>) {
    if read_only {
        (queue, Seq::empty())
    } else {
        let keep = later_than(queue, now) as int;
        (queue.take(keep), sweep_records(maps, queue.skip(keep).reverse(), now))
    }
}

} // verus!

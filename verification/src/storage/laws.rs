//! What holds of the store as a whole: recovery gives back the state that
//! the log describes, replaying twice is replaying once, and a reader finds
//! what was written.

use crate::storage::hash::{key_hash, shard_index};
use crate::storage::model::{
    apply_record, apply_to_shards, entry_of_record, replay_shards, set_entry, visible, ShardMap,
};
use crate::storage::types::KvEntryView;
use crate::wal::entry::{decode, OpType, WalEntryView};
use crate::wal::replay::{
    encode_log, good_prefix_len, lemma_scan_log, loggable, scan_records, with_offsets, ReplayedView,
};
use vstd::prelude::*;

verus! {

/// The records of a scan, without their offsets.
pub open spec fn scanned_log(entries: Seq<ReplayedView>) -> Seq<WalEntryView> {
    Seq::new(entries.len(), |i: int| entries[i].entry)
}

/// A run of states in which each comes from the one before by the record
/// logged at that step.
pub open spec fn is_history(states: Seq<Seq<ShardMap>>, log: Seq<WalEntryView>) -> bool {
    &&& states.len() == log.len() + 1
    &&& forall|i: int|
        0 <= i < log.len() ==> #[trigger] states[i + 1] == apply_to_shards(states[i], log[i])
}

/// Replaying the log of a history from its first state gives its last
/// state.
pub proof fn lemma_replay_follows_history(states: Seq<Seq<ShardMap>>, log: Seq<WalEntryView>)
    requires
        is_history(states, log),
    ensures
        replay_shards(states[0], log) == states.last(),
    decreases log.len(),
{
    if log.len() > 0 {
        let n = log.len() as int;
        let front_states = states.drop_last();
        let front_log = log.drop_last();
        assert forall|i: int| 0 <= i < front_log.len() implies #[trigger] front_states[i + 1]
            == apply_to_shards(front_states[i], front_log[i]) by {
            assert(states[i + 1] == apply_to_shards(states[i], log[i]));
        }
        lemma_replay_follows_history(front_states, front_log);
        assert(states[n - 1 + 1] == apply_to_shards(states[n - 1], log[n - 1]));
    }
}

/// The records of a log that carry offsets are the log.
proof fn lemma_scanned_with_offsets(log: Seq<WalEntryView>, at: nat)
    ensures
        scanned_log(with_offsets(log, at)) == log,
    decreases log.len(),
{
    if log.len() > 0 {
        lemma_scanned_with_offsets(log.skip(1), at + log[0].encoded_len());
        let rest = with_offsets(log.skip(1), at + log[0].encoded_len());
        let all = with_offsets(log, at);
        assert(scanned_log(rest).len() == log.len() - 1);
        assert(all.len() == log.len());
        assert forall|i: int| 0 <= i < log.len() implies scanned_log(all)[i] == log[i] by {
            if i > 0 {
                assert(all[i] == rest[i - 1]);
                assert(scanned_log(rest)[i - 1] == log.skip(1)[i - 1]);
            }
        }
        assert(scanned_log(all) =~= log);
    } else {
        assert(scanned_log(with_offsets(log, at)) =~= log);
    }
}

/// Recovery: after a history of logged mutations, scanning the segment that
/// holds the encoded log, with or without the stump of a torn write behind
/// it, and replaying what the scan reads from the first state gives the
/// last state, the state at the last whole record.
pub proof fn lemma_recovery(
    states: Seq<Seq<ShardMap>>,
    log: Seq<WalEntryView>,
    stump: Seq<u8>,
    base: nat,
)
    requires
        is_history(states, log),
        forall|i: int| 0 <= i < log.len() ==> loggable(#[trigger] log[i]),
        decode(stump) is Err,
    ensures
        replay_shards(states[0], scanned_log(scan_records(encode_log(log) + stump, base)))
            == states.last(),
        good_prefix_len(encode_log(log) + stump) == encode_log(log).len(),
{
    lemma_scan_log(log, stump, base);
    lemma_scanned_with_offsets(log, base);
    lemma_replay_follows_history(states, log);
}

/// The last record of a log that speaks of `key`.
pub open spec fn last_touch(log: Seq<WalEntryView>, key: Seq<char>) -> Option<WalEntryView>
    decreases log.len(),
{
    if log.len() == 0 {
        None
    } else if log.last().key == key {
        Some(log.last())
    } else {
        last_touch(log.drop_last(), key)
    }
}

/// What a replay leaves in shard `i` under `key`: where the log speaks of
/// the key and the key belongs to the shard, what its last record says;
/// else what was there before.
pub open spec fn replayed_slot(
    maps: Seq<ShardMap>,
    log: Seq<WalEntryView>,
    i: int,
    key: Seq<char>,
) -> Option<KvEntryView> {
    match last_touch(log, key) {
        Some(r) => if shard_index(key, maps.len()) == i {
            if r.op_type == OpType::Del {
                None
            } else {
                Some(entry_of_record(r))
            }
        } else if maps[i].contains_key(key) {
            Some(maps[i][key])
        } else {
            None
        },
        None => if maps[i].contains_key(key) {
            Some(maps[i][key])
        } else {
            None
        },
    }
}

/// A replay decides each key by the last record that speaks of it and
/// leaves every other key alone.
pub proof fn lemma_replay_by_last_touch(maps: Seq<ShardMap>, log: Seq<WalEntryView>)
    requires
        maps.len() > 0,
    ensures
        replay_shards(maps, log).len() == maps.len(),
        forall|i: int, key: Seq<char>|
            0 <= i < maps.len() ==> (#[trigger] replay_shards(maps, log)[i].contains_key(key)
                <==> replayed_slot(maps, log, i, key) is Some),
        forall|i: int, key: Seq<char>|
            0 <= i < maps.len() && #[trigger] replay_shards(maps, log)[i].contains_key(key)
                ==> replayed_slot(maps, log, i, key) == Some(replay_shards(maps, log)[i][key]),
    decreases log.len(),
{
    if log.len() > 0 {
        let front = log.drop_last();
        let r = log.last();
        lemma_replay_by_last_touch(maps, front);
        let prev = replay_shards(maps, front);
        let n = maps.len();
        let j = shard_index(r.key, n);
        assert(0 <= j < n) by {
            assert(0 <= (key_hash(r.key) as int) % (n as int) < n);
        }
        let out = replay_shards(maps, log);
        assert(out == prev.update(j, apply_record(prev[j], r)));
        assert forall|i: int, key: Seq<char>| 0 <= i < maps.len() implies (
        #[trigger] out[i].contains_key(key) <==> replayed_slot(maps, log, i, key) is Some) && (
        out[i].contains_key(key) ==> replayed_slot(maps, log, i, key) == Some(out[i][key])) by {
            assert(prev[i].contains_key(key) <==> replayed_slot(maps, front, i, key) is Some);
            if prev[i].contains_key(key) {
                assert(replayed_slot(maps, front, i, key) == Some(prev[i][key]));
            }
        }
    }
}

/// Idempotence of replay: applying a log to the state that the same log
/// has already produced changes nothing.
pub proof fn lemma_replay_idempotent(maps: Seq<ShardMap>, log: Seq<WalEntryView>)
    requires
        maps.len() > 0,
    ensures
        replay_shards(replay_shards(maps, log), log) == replay_shards(maps, log),
{
    let once = replay_shards(maps, log);
    lemma_replay_by_last_touch(maps, log);
    lemma_replay_by_last_touch(once, log);
    let twice = replay_shards(once, log);
    assert forall|i: int| 0 <= i < once.len() implies twice[i] =~= once[i] by {
        assert forall|key: Seq<char>| twice[i].contains_key(key) <==> once[i].contains_key(
            key,
        ) by {
            assert(twice[i].contains_key(key) <==> replayed_slot(once, log, i, key) is Some);
            assert(once[i].contains_key(key) <==> replayed_slot(maps, log, i, key) is Some);
            if once[i].contains_key(key) {
                assert(replayed_slot(maps, log, i, key) == Some(once[i][key]));
            }
        }
        assert forall|key: Seq<char>| twice[i].contains_key(key) implies twice[i][key]
            == once[i][key] by {
            assert(replayed_slot(once, log, i, key) == Some(twice[i][key]));
            assert(once[i].contains_key(key) <==> replayed_slot(maps, log, i, key) is Some);
            if once[i].contains_key(key) {
                assert(replayed_slot(maps, log, i, key) == Some(once[i][key]));
            }
        }
    }
    assert(twice =~= once);
}

/// A reader finds what was written: after a write stored `entry` under
/// `key`, a read of `key` at any time at which `entry` is not expired sees
/// `entry`, whatever its value, the empty value too.
pub proof fn lemma_read_after_write(m: ShardMap, key: Seq<char>, entry: KvEntryView, later: u64)
    requires
        !entry.is_expired_at(later),
    ensures
        visible(m.insert(key, entry), key, later) == Some(entry),
{
}

/// An entry that was written without a time to live, or with one of zero
/// seconds, never expires.
pub proof fn lemma_zero_ttl_never_expires(
    m: ShardMap,
    key: Seq<char>,
    value: Seq<u8>,
    now: u64,
    later: u64,
)
    ensures
        set_entry(m, key, value, Some(0u64), now).expires_at is None,
        set_entry(m, key, value, None, now).expires_at is None,
        set_entry(m, key, value, Some(0u64), now) == set_entry(m, key, value, None, now),
        !set_entry(m, key, value, Some(0u64), now).is_expired_at(later),
{
}

/// Entries keep the data model's rule: one that expires does so strictly
/// after it was made. This holds of what a write stores and of what a
/// replayed record stores.
pub proof fn lemma_stored_entries_are_well_formed(
    m: ShardMap,
    key: Seq<char>,
    value: Seq<u8>,
    ttl_secs: Option<u64>,
    now: u64,
    r: WalEntryView,
)
    ensures
        set_entry(m, key, value, ttl_secs, now).wf(),
        entry_of_record(r).wf(),
{
}

/// No entry that a reader is shown is expired at the time of the read.
pub proof fn lemma_visible_not_expired(m: ShardMap, key: Seq<char>, now: u64)
    ensures
        visible(m, key, now) matches Some(e) ==> !e.is_expired_at(now) && m.contains_key(key)
            && m[key] == e,
{
}

} // verus!

//! Snapshots: the whole state of the shards as one block of bytes.
//!
//! All integers are little-endian. A snapshot is
//!
//! ```text
//! "KVSS" | version: u32 | num_shards: u32 | wal_offset: u64 | shard*
//! shard  = entry_count: u64 | entry*
//! entry  = key_len: u64 | key | value_len: u64 | value
//!        | version: u64 | created_at: u64 | expiry
//! expiry = 0u8  |  1u8 expires_at: u64
//! ```
//!
//! The header names the log offset from which to replay after the snapshot
//! was loaded.

use crate::storage::engine::{shard_lists, shard_views, StorageEngine};
use crate::storage::error::{StorageError, StorageErrorView};
use crate::storage::model::queue_of_lists;
use crate::storage::shard::{distinct_keys, lemma_pairs_map, pairs_map, PairView, Shard};
use crate::storage::types::{KvEntry, KvEntryView};
use crate::text::{decimal_string, decimal_text, string_from_utf8};
use vstd::bytes::{
    spec_u32_from_le_bytes, spec_u32_to_le_bytes, spec_u64_from_le_bytes, spec_u64_to_le_bytes,
    u32_from_le_bytes, u32_to_le_bytes, u64_from_le_bytes, u64_to_le_bytes,
};
use vstd::prelude::*;
use vstd::slice::slice_subrange;
use vstd::string::StringExecFns;
use vstd::utf8::{decode_utf8, encode_utf8, valid_utf8};

verus! {

/// The format version this code writes and reads.
pub const SNAPSHOT_VERSION: u32 = 1;

/// Bytes of the header.
pub const SNAPSHOT_HEADER_LEN: usize = 20;

/// The four bytes that open every snapshot: `KVSS`.
pub open spec fn magic() -> Seq<u8> {
    seq![0x4Bu8, 0x56u8, 0x53u8, 0x53u8]
}

/// An expiry on the wire: a tag byte, then the instant where there is one.
pub open spec fn encode_expiry(expires_at: Option<u64>) -> Seq<u8> {
    match expires_at {
        Some(e) => seq![1u8] + spec_u64_to_le_bytes(e),
        None => seq![0u8],
    }
}

/// One entry on the wire.
pub open spec fn encode_pair(p: PairView) -> Seq<u8> {
    spec_u64_to_le_bytes(encode_utf8(p.key).len() as u64) + encode_utf8(p.key)
        + spec_u64_to_le_bytes(p.entry.value.len() as u64) + p.entry.value + spec_u64_to_le_bytes(
        p.entry.version,
    ) + spec_u64_to_le_bytes(p.entry.created_at) + encode_expiry(p.entry.expires_at)
}

/// A run of entries on the wire.
pub open spec fn encode_pairs(pairs: Seq<PairView>) -> Seq<u8>
    decreases pairs.len(),
{
    if pairs.len() == 0 {
        Seq::empty()
    } else {
        encode_pairs(pairs.drop_last()) + encode_pair(pairs.last())
    }
}

/// One shard on the wire: the number of its entries, then the entries.
pub open spec fn encode_shard(pairs: Seq<PairView>) -> Seq<u8> {
    spec_u64_to_le_bytes(pairs.len() as u64) + encode_pairs(pairs)
}

/// A run of shards on the wire.
pub open spec fn encode_shards(shards: Seq<Seq<PairView>>) -> Seq<u8>
    decreases shards.len(),
{
    if shards.len() == 0 {
        Seq::empty()
    } else {
        encode_shards(shards.drop_last()) + encode_shard(shards.last())
    }
}

/// The header on the wire.
pub open spec fn encode_header(num_shards: u32, wal_offset: u64) -> Seq<u8> {
    magic() + spec_u32_to_le_bytes(SNAPSHOT_VERSION) + spec_u32_to_le_bytes(num_shards)
        + spec_u64_to_le_bytes(wal_offset)
}

/// A whole snapshot on the wire.
pub open spec fn encode_snapshot(wal_offset: u64, shards: Seq<Seq<PairView>>) -> Seq<u8> {
    encode_header(shards.len() as u32, wal_offset) + encode_shards(shards)
}

fn put_u64(out: &mut Vec<u8>, x: u64)
    ensures
        final(out)@ == old(out)@ + spec_u64_to_le_bytes(x),
{
    let bytes = u64_to_le_bytes(x);
    out.extend_from_slice(bytes.as_slice());
}

fn put_u32(out: &mut Vec<u8>, x: u32)
    ensures
        final(out)@ == old(out)@ + spec_u32_to_le_bytes(x),
{
    let bytes = u32_to_le_bytes(x);
    out.extend_from_slice(bytes.as_slice());
}

/// Appends one entry to `out`.
fn write_pair(out: &mut Vec<u8>, key: &str, entry: &KvEntry)
    ensures
        final(out)@ == old(out)@ + encode_pair(PairView { key: key@, entry: entry@ }),
{
    let ghost start = out@;
    let key_bytes = key.as_bytes();
    put_u64(out, key_bytes.len() as u64);
    out.extend_from_slice(key_bytes);
    put_u64(out, entry.value.len() as u64);
    out.extend_from_slice(entry.value.as_slice());
    put_u64(out, entry.version);
    put_u64(out, entry.created_at);
    match entry.expires_at {
        Some(e) => {
            out.push(1);
            put_u64(out, e);
        },
        None => {
            out.push(0);
        },
    }
    assert(out@ =~= start + encode_pair(PairView { key: key@, entry: entry@ }));
}

/// Appends one shard to `out`.
fn write_shard(out: &mut Vec<u8>, shard: &Shard)
    ensures
        final(out)@ == old(out)@ + encode_shard(shard.pairs()),
{
    let ghost start = out@;
    let n: usize = shard.len();
    put_u64(out, n as u64);
    let mut i: usize = 0;
    assert(shard.pairs().take(0) =~= Seq::<PairView>::empty());
    while i < n
        invariant
            i <= n,
            n == shard.pairs().len(),
            out@ == start + spec_u64_to_le_bytes(n as u64) + encode_pairs(
                shard.pairs().take(i as int),
            ),
        decreases n - i,
    {
        proof {
            assert(shard.pairs().take(i + 1).drop_last() =~= shard.pairs().take(i as int));
        }
        let ghost before = out@;
        write_pair(out, shard.key_at(i), shard.entry_at(i));
        assert(out@ =~= start + spec_u64_to_le_bytes(n as u64) + encode_pairs(
            shard.pairs().take(i + 1),
        ));
        i = i + 1;
    }
    assert(shard.pairs().take(i as int) =~= shard.pairs());
    assert(out@ =~= start + encode_shard(shard.pairs()));
}

/// Lays a snapshot out: the header for `state.len()` shards and
/// `wal_offset`, then every shard in order. `None` where there are more
/// shards than the header can count.
pub fn encode_state(state: &Vec<Shard>, wal_offset: u64) -> (r: Option<Vec<u8>>)
    ensures
        r is Some <==> state@.len() <= u32::MAX,
        r matches Some(bytes) ==> bytes@ == encode_snapshot(wal_offset, shard_lists(state@)),
{
    if state.len() > u32::MAX as usize {
        return None;
    }
    let mut out: Vec<u8> = Vec::new();
    out.push(0x4B);
    out.push(0x56);
    out.push(0x53);
    out.push(0x53);
    put_u32(&mut out, SNAPSHOT_VERSION);
    put_u32(&mut out, state.len() as u32);
    put_u64(&mut out, wal_offset);
    let ghost lists = shard_lists(state@);
    let ghost header = encode_header(state@.len() as u32, wal_offset);
    assert(out@ =~= header);
    let mut i: usize = 0;
    assert(lists.take(0) =~= Seq::<Seq<PairView>>::empty());
    while i < state.len()
        invariant
            i <= state@.len(),
            lists == shard_lists(state@),
            out@ == header + encode_shards(lists.take(i as int)),
        decreases state@.len() - i,
    {
        proof {
            assert(lists.take(i + 1).drop_last() =~= lists.take(i as int));
            assert(lists.take(i + 1).last() == state@[i as int].pairs());
        }
        write_shard(&mut out, &state[i]);
        assert(out@ =~= header + encode_shards(lists.take(i + 1)));
        i = i + 1;
    }
    assert(lists.take(i as int) =~= lists);
    Some(out)
}

/// The entry at the front of `data` and the number of bytes it takes, if an
/// entry is there.
pub open spec fn parse_pair(data: Seq<u8>) -> Option<(PairView, nat)> {
    if data.len() < 8 {
        None
    } else {
        let kl = spec_u64_from_le_bytes(data.subrange(0, 8)) as int;
        if data.len() < 16 + kl {
            None
        } else {
            let vl = spec_u64_from_le_bytes(data.subrange(8 + kl, 16 + kl)) as int;
            let tag_at = 32 + kl + vl;
            if data.len() < tag_at + 1 || !valid_utf8(data.subrange(8, 8 + kl)) {
                None
            } else {
                let entry = KvEntryView {
                    value: data.subrange(16 + kl, 16 + kl + vl),
                    version: spec_u64_from_le_bytes(data.subrange(16 + kl + vl, 24 + kl + vl)),
                    created_at: spec_u64_from_le_bytes(data.subrange(24 + kl + vl, tag_at)),
                    expires_at: None,
                };
                let key = decode_utf8(data.subrange(8, 8 + kl));
                if data[tag_at] == 0 {
                    Some((PairView { key, entry }, (tag_at + 1) as nat))
                } else if data[tag_at] == 1 && data.len() >= tag_at + 9 {
                    Some(
                        (
                            PairView {
                                key,
                                entry: KvEntryView {
                                    expires_at: Some(
                                        spec_u64_from_le_bytes(
                                            data.subrange(tag_at + 1, tag_at + 9),
                                        ),
                                    ),
                                    ..entry
                                },
                            },
                            (tag_at + 9) as nat,
                        ),
                    )
                } else {
                    None
                }
            }
        }
    }
}

/// The first `count` entries at the front of `data` and the bytes they
/// take, if that many entries are there.
pub open spec fn parse_pairs(data: Seq<u8>, count: nat) -> Option<(Seq<PairView>, nat)>
    decreases count,
{
    if count == 0 {
        Some((Seq::empty(), 0))
    } else {
        match parse_pairs(data, (count - 1) as nat) {
            Some((front, used)) => match parse_pair(data.skip(used as int)) {
                Some((p, n)) => Some((front.push(p), used + n)),
                None => None,
            },
            None => None,
        }
    }
}

/// The shard at the front of `data` and the bytes it takes: a count, that
/// many entries, no key twice.
pub open spec fn parse_shard(data: Seq<u8>) -> Option<(Seq<PairView>, nat)> {
    if data.len() < 8 {
        None
    } else {
        match parse_pairs(data.skip(8), spec_u64_from_le_bytes(data.subrange(0, 8)) as nat) {
            Some((pairs, used)) => if distinct_keys(pairs) {
                Some((pairs, 8 + used))
            } else {
                None
            },
            None => None,
        }
    }
}

/// The first `count` shards at the front of `data` and the bytes they take.
pub open spec fn parse_shards(data: Seq<u8>, count: nat) -> Option<(Seq<Seq<PairView>>, nat)>
    decreases count,
{
    if count == 0 {
        Some((Seq::empty(), 0))
    } else {
        match parse_shards(data, (count - 1) as nat) {
            Some((front, used)) => match parse_shard(data.skip(used as int)) {
                Some((s, n)) => Some((front.push(s), used + n)),
                None => None,
            },
            None => None,
        }
    }
}

/// What is wrong with the header of `data`, if anything, for an engine of
/// `expected` shards.
pub open spec fn header_error(data: Seq<u8>, expected: u32) -> Option<Seq<char>> {
    if data.len() < SNAPSHOT_HEADER_LEN {
        Some("snapshot header is cut short"@)
    } else if data.subrange(0, 4) != magic() {
        Some("not a snapshot: bad magic"@)
    } else if spec_u32_from_le_bytes(data.subrange(4, 8)) != SNAPSHOT_VERSION {
        Some("unsupported snapshot version"@)
    } else if spec_u32_from_le_bytes(data.subrange(8, 12)) != expected {
        Some("snapshot was taken with another number of shards"@)
    } else {
        None
    }
}

/// What a snapshot decodes to for an engine of `expected` shards: the log
/// offset in its header and the entry list of every shard. The header has
/// to carry the magic, the version and the engine's own shard count; the
/// body has to be exactly that many shards, with nothing behind them.
pub open spec fn decode_snapshot(data: Seq<u8>, expected: u32) -> Result<
    (u64, Seq<Seq<PairView>>),
    StorageErrorView,
> {
    match header_error(data, expected) {
        Some(msg) => Err(StorageErrorView::Serialization(msg)),
        None => match parse_shards(data.skip(SNAPSHOT_HEADER_LEN as int), expected as nat) {
            Some((shards, used)) => if used + SNAPSHOT_HEADER_LEN == data.len() {
                Ok((spec_u64_from_le_bytes(data.subrange(12, 20)), shards))
            } else {
                Err(StorageErrorView::Serialization("malformed snapshot body"@))
            },
            None => Err(StorageErrorView::Serialization("malformed snapshot body"@)),
        },
    }
}

/// Reads a little-endian `u64` at `pos`, if eight bytes are there.
fn take_u64(data: &[u8], pos: usize) -> (r: Option<u64>)
    requires
        pos <= data@.len(),
    ensures
        r is Some <==> pos + 8 <= data@.len(),
        r matches Some(v) ==> v == spec_u64_from_le_bytes(data@.subrange(pos as int, pos + 8)),
{
    if data.len() - pos < 8 {
        None
    } else {
        Some(u64_from_le_bytes(slice_subrange(data, pos, pos + 8)))
    }
}

/// Reads the entry at `pos`.
fn read_pair(data: &[u8], pos: usize) -> (r: Option<(String, KvEntry, usize)>)
    requires
        pos <= data@.len(),
    ensures
        match r {
            Some((key, entry, next)) => pos < next <= data@.len() && parse_pair(
                data@.skip(pos as int),
            ) == Some((PairView { key: key@, entry: entry@ }, (next - pos) as nat)),
            None => parse_pair(data@.skip(pos as int)) is None,
        },
{
    let ghost rest = data@.skip(pos as int);
    let len: usize = data.len();
    let key_len: u64 = match take_u64(data, pos) {
        Some(v) => v,
        None => {
            return None;
        },
    };
    assert(rest.subrange(0, 8) =~= data@.subrange(pos as int, pos + 8));
    let room: usize = len - pos - 8;
    if room < 8 || key_len > (room - 8) as u64 {
        return None;
    }
    let key_start: usize = pos + 8;
    let key_end: usize = key_start + key_len as usize;
    let ghost kl = key_len as int;
    assert(rest.subrange(8, 8 + kl) =~= data@.subrange(key_start as int, key_end as int));
    assert(rest.subrange(8 + kl, 16 + kl) =~= data@.subrange(key_end as int, key_end + 8));
    let value_len: u64 = match take_u64(data, key_end) {
        Some(v) => v,
        None => {
            return None;
        },
    };
    let after_lens: usize = len - key_end - 8;
    if after_lens < 17 || value_len > (after_lens - 17) as u64 {
        return None;
    }
    let value_start: usize = key_end + 8;
    let value_end: usize = value_start + value_len as usize;
    let tag_at: usize = value_end + 16;
    let ghost vl = value_len as int;
    proof {
        assert(rest.subrange(16 + kl, 16 + kl + vl) =~= data@.subrange(
            value_start as int,
            value_end as int,
        ));
        assert(rest.subrange(16 + kl + vl, 24 + kl + vl) =~= data@.subrange(
            value_end as int,
            value_end + 8,
        ));
        assert(rest.subrange(24 + kl + vl, 32 + kl + vl) =~= data@.subrange(
            value_end + 8,
            tag_at as int,
        ));
        assert(rest[32 + kl + vl] == data@[tag_at as int]);
    }
    let key = match string_from_utf8(slice_subrange(data, key_start, key_end)) {
        Some(k) => k,
        None => {
            return None;
        },
    };
    let value = vstd::slice::slice_to_vec(slice_subrange(data, value_start, value_end));
    let version: u64 = u64_from_le_bytes(slice_subrange(data, value_end, value_end + 8));
    let created_at: u64 = u64_from_le_bytes(slice_subrange(data, value_end + 8, tag_at));
    let tag: u8 = data[tag_at];
    if tag == 0 {
        Some((key, KvEntry { value, version, created_at, expires_at: None }, tag_at + 1))
    } else if tag == 1 {
        match take_u64(data, tag_at + 1) {
            Some(e) => {
                assert(rest.subrange(33 + kl + vl, 41 + kl + vl) =~= data@.subrange(
                    tag_at + 1,
                    tag_at + 9,
                ));
                Some((key, KvEntry { value, version, created_at, expires_at: Some(e) }, tag_at + 9))
            },
            None => None,
        }
    } else {
        None
    }
}

/// Counting further never brings back what a shorter count could not read,
/// and what a longer count reads starts with what a shorter one reads.
proof fn lemma_parse_pairs_prefix(data: Seq<u8>, short: nat, long: nat)
    requires
        short <= long,
    ensures
        parse_pairs(data, short) is None ==> parse_pairs(data, long) is None,
        parse_pairs(data, long) matches Some((all, used)) ==> parse_pairs(data, short) is Some
            && parse_pairs(data, short).unwrap().0 == all.take(short as int) && all.len() == long,
    decreases long,
{
    if short < long {
        lemma_parse_pairs_prefix(data, short, (long - 1) as nat);
        if let Some((all, used)) = parse_pairs(data, long) {
            let front = parse_pairs(data, (long - 1) as nat).unwrap().0;
            assert(all.drop_last() =~= front);
            assert(all.take(short as int) =~= front.take(short as int));
        }
    } else {
        lemma_parse_pairs_len(data, long);
        if let Some((all, used)) = parse_pairs(data, long) {
            assert(all.take(short as int) =~= all);
        }
    }
}

/// A successful read of `count` entries gives `count` entries.
proof fn lemma_parse_pairs_len(data: Seq<u8>, count: nat)
    ensures
        parse_pairs(data, count) matches Some((all, used)) ==> all.len() == count,
    decreases count,
{
    if count > 0 {
        lemma_parse_pairs_len(data, (count - 1) as nat);
    }
}

/// Once a key has come twice, no longer list is free of repeats.
proof fn lemma_repeat_stays(all: Seq<PairView>, n: int)
    requires
        0 <= n <= all.len(),
        !distinct_keys(all.take(n)),
    ensures
        !distinct_keys(all),
{
    let front = all.take(n);
    let (i, j) = choose|i: int, j: int|
        0 <= i < front.len() && 0 <= j < front.len() && i != j && front[i].key == front[j].key;
    assert(all[i].key == all[j].key);
}

/// Reads the shard at `pos`.
fn read_shard(data: &[u8], pos: usize) -> (r: Option<(Shard, usize)>)
    requires
        pos <= data@.len(),
    ensures
        match r {
            Some((shard, next)) => pos < next <= data@.len() && parse_shard(
                data@.skip(pos as int),
            ) == Some((shard.pairs(), (next - pos) as nat)),
            None => parse_shard(data@.skip(pos as int)) is None,
        },
{
    let ghost rest = data@.skip(pos as int);
    let len: usize = data.len();
    let count: u64 = match take_u64(data, pos) {
        Some(v) => v,
        None => {
            return None;
        },
    };
    assert(rest.subrange(0, 8) =~= data@.subrange(pos as int, pos + 8));
    let ghost body = rest.skip(8);
    let start: usize = pos + 8;
    assert(body =~= data@.skip(start as int));
    let mut shard = Shard::new();
    let mut cur: usize = start;
    let mut i: u64 = 0;
    while i < count
        invariant
            i <= count,
            start == pos + 8,
            start <= cur <= data@.len(),
            rest == data@.skip(pos as int),
            count == spec_u64_from_le_bytes(rest.subrange(0, 8)),
            body == rest.skip(8),
            body == data@.skip(start as int),
            distinct_keys(shard.pairs()),
            parse_pairs(body, i as nat) == Some((shard.pairs(), (cur - start) as nat)),
        decreases count - i,
    {
        let ghost so_far = shard.pairs();
        proof {
            assert(body.skip(cur - start) =~= data@.skip(cur as int));
        }
        let (key, entry, next) = match read_pair(data, cur) {
            Some(t) => t,
            None => {
                proof {
                    assert(parse_pairs(body, (i + 1) as nat) is None);
                    lemma_parse_pairs_prefix(body, (i + 1) as nat, count as nat);
                }
                return None;
            },
        };
        let ghost pair = PairView { key: key@, entry: entry@ };
        assert(parse_pairs(body, (i + 1) as nat) == Some(
            (so_far.push(pair), (next - start) as nat),
        ));
        if shard.exists_key(key.as_str()) {
            proof {
                shard.lemma_pairs();
                lemma_pairs_map(so_far);
                let w = choose|w: int| 0 <= w < so_far.len() && #[trigger] so_far[w].key == key@;
                let more = so_far.push(pair);
                assert(more[w].key == more[so_far.len() as int].key);
                assert(!distinct_keys(more));
                lemma_parse_pairs_prefix(body, (i + 1) as nat, count as nat);
                if let Some((all, used)) = parse_pairs(body, count as nat) {
                    lemma_repeat_stays(all, i + 1);
                }
            }
            return None;
        }
        shard.set(key, entry);
        cur = next;
        i = i + 1;
    }
    Some((shard, cur))
}

/// Counting further never brings back shards that a shorter count could
/// not read.
proof fn lemma_parse_shards_prefix(data: Seq<u8>, short: nat, long: nat)
    requires
        short <= long,
        parse_shards(data, short) is None,
    ensures
        parse_shards(data, long) is None,
    decreases long,
{
    if short < long {
        lemma_parse_shards_prefix(data, short, (long - 1) as nat);
    }
}

/// Decodes a snapshot for an engine of `expected` shards.
pub fn decode_state(data: &[u8], expected: u32) -> (r: Result<(u64, Vec<Shard>), StorageError>)
    ensures
        match r {
            Ok((offset, state)) => decode_snapshot(data@, expected) == Ok::<
                (u64, Seq<Seq<PairView>>),
                StorageErrorView,
            >((offset, shard_lists(state@))) && state@.len() == expected,
            Err(e) => decode_snapshot(data@, expected) == Err::<
                (u64, Seq<Seq<PairView>>),
                StorageErrorView,
            >(e@),
        },
{
    if data.len() < SNAPSHOT_HEADER_LEN {
        return Err(StorageError::Serialization("snapshot header is cut short".to_owned()));
    }
    if data[0] != 0x4B || data[1] != 0x56 || data[2] != 0x53 || data[3] != 0x53 {
        assert(data@.subrange(0, 4)[0] == data@[0]);
        assert(data@.subrange(0, 4)[1] == data@[1]);
        assert(data@.subrange(0, 4)[2] == data@[2]);
        assert(data@.subrange(0, 4)[3] == data@[3]);
        return Err(StorageError::Serialization("not a snapshot: bad magic".to_owned()));
    }
    assert(data@.subrange(0, 4) =~= magic());
    let version: u32 = u32_from_le_bytes(slice_subrange(data, 4, 8));
    if version != SNAPSHOT_VERSION {
        return Err(StorageError::Serialization("unsupported snapshot version".to_owned()));
    }
    let num_shards: u32 = u32_from_le_bytes(slice_subrange(data, 8, 12));
    if num_shards != expected {
        return Err(
            StorageError::Serialization(
                "snapshot was taken with another number of shards".to_owned(),
            ),
        );
    }
    let wal_offset: u64 = u64_from_le_bytes(slice_subrange(data, 12, 20));
    let ghost body = data@.skip(SNAPSHOT_HEADER_LEN as int);
    let mut state: Vec<Shard> = Vec::new();
    let mut cur: usize = SNAPSHOT_HEADER_LEN;
    let mut i: u32 = 0;
    assert(shard_lists(state@) =~= Seq::<Seq<PairView>>::empty());
    while i < expected
        invariant
            i <= expected,
            SNAPSHOT_HEADER_LEN <= cur <= data@.len(),
            body == data@.skip(SNAPSHOT_HEADER_LEN as int),
            header_error(data@, expected) is None,
            state@.len() == i,
            parse_shards(body, i as nat) == Some(
                (shard_lists(state@), (cur - SNAPSHOT_HEADER_LEN) as nat),
            ),
        decreases expected - i,
    {
        let ghost so_far = shard_lists(state@);
        proof {
            assert(body.skip(cur - SNAPSHOT_HEADER_LEN) =~= data@.skip(cur as int));
        }
        let (shard, next) = match read_shard(data, cur) {
            Some(t) => t,
            None => {
                proof {
                    assert(parse_shards(body, (i + 1) as nat) is None);
                    lemma_parse_shards_prefix(body, (i + 1) as nat, expected as nat);
                }
                return Err(StorageError::Serialization("malformed snapshot body".to_owned()));
            },
        };
        let ghost list = shard.pairs();
        state.push(shard);
        assert(shard_lists(state@) =~= so_far.push(list));
        cur = next;
        i = i + 1;
    }
    if cur != data.len() {
        return Err(StorageError::Serialization("malformed snapshot body".to_owned()));
    }
    Ok((wal_offset, state))
}

/// An entry whose lengths fit the length fields.
pub open spec fn pair_fits(p: PairView) -> bool {
    encode_utf8(p.key).len() <= u64::MAX && p.entry.value.len() <= u64::MAX
}

/// A shard's list that a snapshot can carry: no key twice, and every length
/// fits its field.
pub open spec fn list_fits(pairs: Seq<PairView>) -> bool {
    &&& distinct_keys(pairs)
    &&& pairs.len() <= u64::MAX
    &&& forall|i: int| 0 <= i < pairs.len() ==> pair_fits(#[trigger] pairs[i])
}

/// An encoded entry reads back as itself, whatever follows it.
pub proof fn lemma_parse_pair_encode(p: PairView, rest: Seq<u8>)
    requires
        pair_fits(p),
    ensures
        parse_pair(encode_pair(p) + rest) == Some((p, encode_pair(p).len())),
        encode_pair(p).len() > 0,
{
    vstd::bytes::lemma_auto_spec_u64_to_from_le_bytes();
    vstd::utf8::encode_utf8_valid_utf8(p.key);
    vstd::utf8::encode_utf8_decode_utf8(p.key);
    let data = encode_pair(p) + rest;
    let kb = encode_utf8(p.key);
    let kl = kb.len() as int;
    let vl = p.entry.value.len() as int;
    assert(data.subrange(0, 8) =~= spec_u64_to_le_bytes(kl as u64));
    assert(data.subrange(8, 8 + kl) =~= kb);
    assert(data.subrange(8 + kl, 16 + kl) =~= spec_u64_to_le_bytes(vl as u64));
    assert(data.subrange(16 + kl, 16 + kl + vl) =~= p.entry.value);
    assert(data.subrange(16 + kl + vl, 24 + kl + vl) =~= spec_u64_to_le_bytes(p.entry.version));
    assert(data.subrange(24 + kl + vl, 32 + kl + vl) =~= spec_u64_to_le_bytes(
        p.entry.created_at,
    ));
    match p.entry.expires_at {
        Some(e) => {
            assert(data[32 + kl + vl] == 1);
            assert(data.subrange(33 + kl + vl, 41 + kl + vl) =~= spec_u64_to_le_bytes(e));
            assert(encode_pair(p).len() == 41 + kl + vl);
        },
        None => {
            assert(data[32 + kl + vl] == 0);
            assert(encode_pair(p).len() == 33 + kl + vl);
        },
    }
}

/// An encoded run of entries reads back as itself.
pub proof fn lemma_parse_pairs_encode(pairs: Seq<PairView>, rest: Seq<u8>)
    requires
        forall|i: int| 0 <= i < pairs.len() ==> pair_fits(#[trigger] pairs[i]),
    ensures
        parse_pairs(encode_pairs(pairs) + rest, pairs.len()) == Some(
            (pairs, encode_pairs(pairs).len()),
        ),
    decreases pairs.len(),
{
    if pairs.len() > 0 {
        let front = pairs.drop_last();
        let last = pairs.last();
        let data = encode_pairs(pairs) + rest;
        assert forall|i: int| 0 <= i < front.len() implies pair_fits(#[trigger] front[i]) by {
            assert(front[i] == pairs[i]);
        }
        lemma_parse_pairs_encode(front, encode_pair(last) + rest);
        assert(data =~= encode_pairs(front) + (encode_pair(last) + rest));
        assert(data.skip(encode_pairs(front).len() as int) =~= encode_pair(last) + rest);
        assert(pair_fits(pairs[pairs.len() - 1]));
        lemma_parse_pair_encode(last, rest);
        assert(front.push(last) =~= pairs);
    }
}

/// An encoded shard reads back as itself.
pub proof fn lemma_parse_shard_encode(pairs: Seq<PairView>, rest: Seq<u8>)
    requires
        list_fits(pairs),
    ensures
        parse_shard(encode_shard(pairs) + rest) == Some((pairs, encode_shard(pairs).len())),
        encode_shard(pairs).len() >= 8,
{
    vstd::bytes::lemma_auto_spec_u64_to_from_le_bytes();
    let data = encode_shard(pairs) + rest;
    assert(data.subrange(0, 8) =~= spec_u64_to_le_bytes(pairs.len() as u64));
    assert(data.skip(8) =~= encode_pairs(pairs) + rest);
    lemma_parse_pairs_encode(pairs, rest);
}

/// An encoded run of shards reads back as itself.
pub proof fn lemma_parse_shards_encode(shards: Seq<Seq<PairView>>, rest: Seq<u8>)
    requires
        forall|i: int| 0 <= i < shards.len() ==> list_fits(#[trigger] shards[i]),
    ensures
        parse_shards(encode_shards(shards) + rest, shards.len()) == Some(
            (shards, encode_shards(shards).len()),
        ),
    decreases shards.len(),
{
    if shards.len() > 0 {
        let front = shards.drop_last();
        let last = shards.last();
        let data = encode_shards(shards) + rest;
        assert forall|i: int| 0 <= i < front.len() implies list_fits(#[trigger] front[i]) by {
            assert(front[i] == shards[i]);
        }
        lemma_parse_shards_encode(front, encode_shard(last) + rest);
        assert(data =~= encode_shards(front) + (encode_shard(last) + rest));
        assert(data.skip(encode_shards(front).len() as int) =~= encode_shard(last) + rest);
        assert(list_fits(shards[shards.len() - 1]));
        lemma_parse_shard_encode(last, rest);
        assert(front.push(last) =~= shards);
    }
}

/// Round trip of a snapshot: what was encoded for an engine of so many
/// shards decodes, for an engine of as many, to the same log offset and the
/// same entries in every shard.
pub proof fn lemma_snapshot_round_trip(wal_offset: u64, shards: Seq<Seq<PairView>>)
    requires
        shards.len() <= u32::MAX,
        forall|i: int| 0 <= i < shards.len() ==> list_fits(#[trigger] shards[i]),
    ensures
        decode_snapshot(encode_snapshot(wal_offset, shards), shards.len() as u32) == Ok::<
            (u64, Seq<Seq<PairView>>),
            StorageErrorView,
        >((wal_offset, shards)),
{
    vstd::bytes::lemma_auto_spec_u64_to_from_le_bytes();
    vstd::bytes::lemma_auto_spec_u32_to_from_le_bytes();
    let n = shards.len() as u32;
    let data = encode_snapshot(wal_offset, shards);
    let header = encode_header(n, wal_offset);
    assert(header.len() == SNAPSHOT_HEADER_LEN);
    assert(data.subrange(0, 4) =~= magic());
    assert(data.subrange(4, 8) =~= spec_u32_to_le_bytes(SNAPSHOT_VERSION));
    assert(data.subrange(8, 12) =~= spec_u32_to_le_bytes(n));
    assert(data.subrange(12, 20) =~= spec_u64_to_le_bytes(wal_offset));
    assert(data.skip(SNAPSHOT_HEADER_LEN as int) =~= encode_shards(shards));
    lemma_parse_shards_encode(shards, Seq::<u8>::empty());
    assert(encode_shards(shards) + Seq::<u8>::empty() =~= encode_shards(shards));
}

/// A snapshot taken with one number of shards is refused by an engine with
/// another.
pub proof fn lemma_snapshot_shard_count(wal_offset: u64, shards: Seq<Seq<PairView>>, other: u32)
    requires
        shards.len() <= u32::MAX,
        other != shards.len(),
    ensures
        decode_snapshot(encode_snapshot(wal_offset, shards), other) == Err::<
            (u64, Seq<Seq<PairView>>),
            StorageErrorView,
        >(
            StorageErrorView::Serialization(
                "snapshot was taken with another number of shards"@,
            ),
        ),
{
    vstd::bytes::lemma_auto_spec_u64_to_from_le_bytes();
    vstd::bytes::lemma_auto_spec_u32_to_from_le_bytes();
    let n = shards.len() as u32;
    let data = encode_snapshot(wal_offset, shards);
    assert(data.subrange(0, 4) =~= magic());
    assert(data.subrange(4, 8) =~= spec_u32_to_le_bytes(SNAPSHOT_VERSION));
    assert(data.subrange(8, 12) =~= spec_u32_to_le_bytes(n));
}

/// What reads as an entry is the encoding of that entry.
pub proof fn lemma_encode_parsed_pair(data: Seq<u8>)
    ensures
        parse_pair(data) matches Some((p, n)) ==> n <= data.len() && n > 0 && pair_fits(p)
            && data.subrange(0, n as int) == encode_pair(p),
{
    if let Some((p, n)) = parse_pair(data) {
        vstd::bytes::lemma_auto_spec_u64_to_from_le_bytes();
        let kl = spec_u64_from_le_bytes(data.subrange(0, 8)) as int;
        let vl = spec_u64_from_le_bytes(data.subrange(8 + kl, 16 + kl)) as int;
        let key_bytes = data.subrange(8, 8 + kl);
        vstd::utf8::decode_utf8_encode_utf8(key_bytes);
        assert(encode_utf8(p.key) == key_bytes);
        assert(data.subrange(0, 8).len() == 8);
        assert(data.subrange(8 + kl, 16 + kl).len() == 8);
        assert(spec_u64_to_le_bytes(kl as u64) == data.subrange(0, 8));
        assert(spec_u64_to_le_bytes(vl as u64) == data.subrange(8 + kl, 16 + kl));
        assert(spec_u64_to_le_bytes(p.entry.version) == data.subrange(
            16 + kl + vl,
            24 + kl + vl,
        ));
        assert(spec_u64_to_le_bytes(p.entry.created_at) == data.subrange(
            24 + kl + vl,
            32 + kl + vl,
        ));
        match p.entry.expires_at {
            Some(e) => {
                assert(spec_u64_to_le_bytes(e) == data.subrange(33 + kl + vl, 41 + kl + vl));
            },
            None => {},
        }
        assert(data.subrange(0, n as int) =~= encode_pair(p));
    }
}

/// What reads as a run of entries is the encoding of that run.
pub proof fn lemma_encode_parsed_pairs(data: Seq<u8>, count: nat)
    ensures
        parse_pairs(data, count) matches Some((pairs, n)) ==> n <= data.len() && pairs.len()
            == count && data.subrange(0, n as int) == encode_pairs(pairs) && (forall|i: int|
            0 <= i < pairs.len() ==> pair_fits(#[trigger] pairs[i])),
    decreases count,
{
    if count > 0 {
        lemma_encode_parsed_pairs(data, (count - 1) as nat);
        if let Some((pairs, n)) = parse_pairs(data, count) {
            let (front, used) = parse_pairs(data, (count - 1) as nat).unwrap();
            let rest = data.skip(used as int);
            lemma_encode_parsed_pair(rest);
            let (p, m) = parse_pair(rest).unwrap();
            assert(pairs.drop_last() =~= front);
            assert(rest.subrange(0, m as int) =~= data.subrange(used as int, n as int));
            assert(data.subrange(0, n as int) =~= data.subrange(0, used as int)
                + data.subrange(used as int, n as int));
            assert forall|i: int| 0 <= i < pairs.len() implies pair_fits(#[trigger] pairs[i]) by {
                if i < front.len() {
                    assert(pairs[i] == front[i]);
                }
            }
        }
    } else {
        assert(data.subrange(0, 0) =~= Seq::<u8>::empty());
    }
}

/// What reads as a shard is the encoding of that shard.
pub proof fn lemma_encode_parsed_shard(data: Seq<u8>)
    ensures
        parse_shard(data) matches Some((list, n)) ==> n <= data.len() && n >= 8 && list_fits(
            list,
        ) && data.subrange(0, n as int) == encode_shard(list),
{
    if let Some((list, n)) = parse_shard(data) {
        let count = spec_u64_from_le_bytes(data.subrange(0, 8)) as nat;
        let body = data.skip(8);
        lemma_encode_parsed_pairs(body, count);
        let used = (n - 8) as int;
        assert(data.subrange(0, 8).len() == 8);
        assert(spec_u64_to_le_bytes(list.len() as u64) == data.subrange(0, 8)) by {
            vstd::bytes::lemma_auto_spec_u64_to_from_le_bytes();
        }
        assert(body.subrange(0, used) =~= data.subrange(8, n as int));
        assert(data.subrange(0, n as int) =~= data.subrange(0, 8) + data.subrange(8, n as int));
    }
}

/// What reads as a run of shards is the encoding of that run.
pub proof fn lemma_encode_parsed_shards(data: Seq<u8>, count: nat)
    ensures
        parse_shards(data, count) matches Some((shards, n)) ==> n <= data.len() && shards.len()
            == count && data.subrange(0, n as int) == encode_shards(shards) && (forall|i: int|
            0 <= i < shards.len() ==> list_fits(#[trigger] shards[i])),
    decreases count,
{
    if count > 0 {
        lemma_encode_parsed_shards(data, (count - 1) as nat);
        if let Some((shards, n)) = parse_shards(data, count) {
            let (front, used) = parse_shards(data, (count - 1) as nat).unwrap();
            let rest = data.skip(used as int);
            lemma_encode_parsed_shard(rest);
            let (list, m) = parse_shard(rest).unwrap();
            assert(shards.drop_last() =~= front);
            assert(shards.last() == list);
            assert(rest.subrange(0, m as int) =~= data.subrange(used as int, n as int));
            assert(data.subrange(0, n as int) =~= data.subrange(0, used as int)
                + data.subrange(used as int, n as int));
            assert forall|i: int| 0 <= i < shards.len() implies list_fits(
                #[trigger] shards[i],
            ) by {
                if i < front.len() {
                    assert(shards[i] == front[i]);
                }
            }
        }
    } else {
        assert(data.subrange(0, 0) =~= Seq::<u8>::empty());
    }
}

/// The other direction of the round trip: a snapshot that decodes is the
/// encoding of what it decodes to. So the decoder accepts the encodings of
/// states with as many shards as it is asked for, and nothing else.
pub proof fn lemma_decoded_snapshot_encodes(data: Seq<u8>, expected: u32)
    ensures
        decode_snapshot(data, expected) matches Ok((offset, shards)) ==> shards.len()
            == expected && data == encode_snapshot(offset, shards) && (forall|i: int|
            0 <= i < shards.len() ==> list_fits(#[trigger] shards[i])),
{
    if let Ok((offset, shards)) = decode_snapshot(data, expected) {
        vstd::bytes::lemma_auto_spec_u64_to_from_le_bytes();
        vstd::bytes::lemma_auto_spec_u32_to_from_le_bytes();
        let body = data.skip(SNAPSHOT_HEADER_LEN as int);
        lemma_encode_parsed_shards(body, expected as nat);
        assert(data.subrange(4, 8).len() == 4);
        assert(data.subrange(8, 12).len() == 4);
        assert(data.subrange(12, 20).len() == 8);
        assert(spec_u32_to_le_bytes(SNAPSHOT_VERSION) == data.subrange(4, 8));
        assert(spec_u32_to_le_bytes(expected) == data.subrange(8, 12));
        assert(spec_u64_to_le_bytes(offset) == data.subrange(12, 20));
        assert(body.subrange(0, body.len() as int) =~= body);
        assert(data =~= encode_header(expected, offset) + body);
    }
}

/// A snapshot that decodes has a valid header: it opens with the magic,
/// carries the format version of this code and was taken with the number
/// of shards it is decoded for.
pub proof fn lemma_decoded_snapshot_header(data: Seq<u8>, expected: u32)
    requires
        decode_snapshot(data, expected) is Ok,
    ensures
        data.len() >= SNAPSHOT_HEADER_LEN,
        data.subrange(0, 4) == magic(),
        spec_u32_from_le_bytes(data.subrange(4, 8)) == SNAPSHOT_VERSION,
        spec_u32_from_le_bytes(data.subrange(8, 12)) == expected,
{
}

/// The maps that a list of entry lists spells out.
pub open spec fn list_maps(lists: Seq<Seq<PairView>>) -> Seq<Map<Seq<char>, KvEntryView>> {
    Seq::new(lists.len(), |i: int| pairs_map(lists[i]))
}

/// Writes and reads snapshots for one directory.
pub struct SnapshotManager {
    snapshot_dir: String,
}

/// The file name of the snapshot taken at `unix_seconds`.
pub open spec fn snapshot_name(unix_seconds: u64) -> Seq<char> {
    "snapshot_"@ + decimal_text(unix_seconds as nat) + ".bin"@
}

impl SnapshotManager {
    pub fn new(snapshot_dir: String) -> (m: Self)
        ensures
            m.dir() == snapshot_dir@,
    {
        SnapshotManager { snapshot_dir }
    }

    /// The directory that snapshots are kept in.
    pub closed spec fn dir(&self) -> Seq<char> {
        self.snapshot_dir@
    }

    pub fn snapshot_dir(&self) -> (dir: &str)
        ensures
            dir@ == self.dir(),
    {
        self.snapshot_dir.as_str()
    }

    /// The name under which the snapshot taken at `unix_seconds` is stored:
    /// `snapshot_<unix_seconds>.bin`.
    pub fn file_name(&self, unix_seconds: u64) -> (name: String)
        ensures
            name@ == snapshot_name(unix_seconds),
    {
        let mut name = "snapshot_".to_owned();
        name.append(decimal_string(unix_seconds).as_str());
        name.append(".bin");
        name
    }

    /// The name under which a snapshot is written before it is moved to its
    /// final name in one step: the final name with `.tmp` behind it.
    pub fn temp_file_name(&self, unix_seconds: u64) -> (name: String)
        ensures
            name@ == snapshot_name(unix_seconds) + ".tmp"@,
    {
        let mut name = self.file_name(unix_seconds);
        name.append(".tmp");
        name
    }

    /// Captures the engine: the snapshot's file name and its bytes. The
    /// header records `wal_offset`, read by the caller before the capture,
    /// as the offset to replay from. Fails only where the engine has more
    /// shards than the header can count.
    pub fn create_snapshot(&self, engine: &StorageEngine, wal_offset: u64, unix_seconds: u64) -> (r:
        Result<(String, Vec<u8>), StorageError>)
        ensures
            r is Ok <==> engine.shard_maps().len() <= u32::MAX,
            r matches Ok((name, bytes)) ==> name@ == snapshot_name(unix_seconds) && bytes@
                == encode_snapshot(wal_offset, shard_lists(engine.shards_seq())),
            r matches Err(e) ==> e@ == StorageErrorView::Serialization(
                "too many shards for a snapshot"@,
            ),
    {
        let state = engine.snapshot();
        assert(state@.len() == engine.shard_maps().len()) by {
            assert(shard_views(state@).len() == state@.len());
        }
        match encode_state(&state, wal_offset) {
            Some(bytes) => Ok((self.file_name(unix_seconds), bytes)),
            None => Err(StorageError::Serialization("too many shards for a snapshot".to_owned())),
        }
    }

    /// Decodes a snapshot and installs it in the engine; hands back the log
    /// offset to replay from. The snapshot has to carry the magic, the
    /// format version and the engine's own shard count. The expiry queue is
    /// built anew from the entries installed. On any error the engine stays
    /// as it was.
    pub fn load_snapshot(&self, engine: &mut StorageEngine, data: &[u8]) -> (r: Result<
        u64,
        StorageError,
    >)
        requires
            old(engine).wf(),
        ensures
            final(engine).wf(),
            final(engine).is_read_only() == old(engine).is_read_only(),
            match r {
                Ok(offset) => {
                    &&& final(engine).ttl_events() == queue_of_lists(
                        Seq::empty(),
                        shard_lists(final(engine).shards_seq()),
                    )
                    &&& old(engine).shard_maps().len() <= u32::MAX
                    &&& decode_snapshot(data@, old(engine).shard_maps().len() as u32) == Ok::<
                        (u64, Seq<Seq<PairView>>),
                        StorageErrorView,
                    >((offset, shard_lists(final(engine).shards_seq())))
                    &&& final(engine).shard_maps() == list_maps(
                        shard_lists(final(engine).shards_seq()),
                    )
                },
                Err(e) => {
                    &&& final(engine).ttl_events() == old(engine).ttl_events()
                    &&& final(engine).shard_maps() == old(engine).shard_maps()
                    &&& final(engine).shards_seq() == old(engine).shards_seq()
                    &&& if old(engine).shard_maps().len() > u32::MAX {
                        e@ == StorageErrorView::Serialization("too many shards for a snapshot"@)
                    } else {
                        decode_snapshot(data@, old(engine).shard_maps().len() as u32) == Err::<
                            (u64, Seq<Seq<PairView>>),
                            StorageErrorView,
                        >(e@)
                    }
                },
            },
    {
        let n: usize = engine.num_shards();
        if n > u32::MAX as usize {
            return Err(StorageError::Serialization("too many shards for a snapshot".to_owned()));
        }
        match decode_state(data, n as u32) {
            Ok((offset, state)) => {
                let ghost lists = shard_lists(state@);
                proof {
                    assert forall|i: int| 0 <= i < state@.len() implies shard_views(state@)[i]
                        == list_maps(lists)[i] by {
                        state@[i].lemma_pairs();
                    }
                    assert(shard_views(state@) =~= list_maps(lists));
                }
                engine.load_from_snapshot(state);
                engine.rebuild_ttl_queue();
                Ok(offset)
            },
            Err(e) => Err(e),
        }
    }
}

} // verus!

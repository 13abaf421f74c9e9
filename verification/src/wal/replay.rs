//! Scanning a log segment after a restart.
//!
//! A segment is a plain run of records. The scan reads records from the front
//! for as long as they decode. What is left then decides how the scan ends:
//! nothing left is a clean end; a record that was cut short, or a last record
//! whose checksum fails, at the end of the newest segment is a torn write and
//! is to be cut off; anything else is corruption and stops recovery.

use crate::wal::checksum::{crc32, crc32_ieee};
use crate::wal::entry::{
    declared_record_len, decode, lemma_decode_encode, lemma_encode_decode, lemma_encode_len,
    CHECKSUM_LEN, HEADER_LEN, WalEntry, WalEntryView,
};
use crate::wal::error::{WalError, WalErrorView};
use vstd::bytes::{spec_u32_from_le_bytes, u32_from_le_bytes, u64_from_le_bytes};
use vstd::prelude::*;
use vstd::slice::slice_subrange;

verus! {

/// A record together with the offset it was read at.
#[derive(Debug)]
pub struct ReplayedEntry {
    pub offset: u64,
    pub entry: WalEntry,
}

/// A [`ReplayedEntry`] as plain data.
pub struct ReplayedView {
    pub offset: nat,
    pub entry: WalEntryView,
}

impl View for ReplayedEntry {
    type V = ReplayedView;

    open spec fn view(&self) -> ReplayedView {
        ReplayedView { offset: self.offset as nat, entry: self.entry@ }
    }
}

/// The views of a run of replayed entries.
pub open spec fn replayed_views(s: Seq<ReplayedEntry>) -> Seq<ReplayedView> {
    Seq::new(s.len(), |i: int| s[i]@)
}

/// The input ends before the record that its header declares does, or
/// before the header itself.
pub open spec fn is_short(rem: Seq<u8>) -> bool {
    rem.len() < HEADER_LEN || rem.len() < declared_record_len(rem)
}

/// For an input that holds a whole record: the stored checksum is not the
/// checksum of the body.
pub open spec fn checksum_fails(rem: Seq<u8>) -> bool {
    let body_end = declared_record_len(rem) - CHECKSUM_LEN;
    spec_u32_from_le_bytes(rem.subrange(body_end, body_end + 4)) != crc32_ieee(
        rem.subrange(0, body_end),
    )
}

/// The rest of a segment is a torn write: it lies at the end of the newest
/// segment and is either cut short or one last whole record whose checksum
/// fails.
pub open spec fn is_torn(rem: Seq<u8>, is_last: bool) -> bool {
    is_last && rem.len() > 0 && (is_short(rem) || (declared_record_len(rem) == rem.len()
        && checksum_fails(rem)))
}

/// How many bytes at the front of `data` are whole, valid records.
pub open spec fn good_prefix_len(data: Seq<u8>) -> nat
    decreases data.len(),
{
    match decode(data) {
        Ok((r, n)) => if 0 < n <= data.len() {
            n + good_prefix_len(data.skip(n as int))
        } else {
            0
        },
        Err(_) => 0,
    }
}

/// The records at the front of `data`, each with its offset, where the first
/// byte of `data` has offset `at`.
pub open spec fn scan_records(data: Seq<u8>, at: nat) -> Seq<ReplayedView>
    decreases data.len(),
{
    match decode(data) {
        Ok((r, n)) => if 0 < n <= data.len() {
            seq![ReplayedView { offset: at, entry: r }] + scan_records(data.skip(n as int), at + n)
        } else {
            Seq::empty()
        },
        Err(_) => Seq::empty(),
    }
}

/// The error that made the scan stop at the front of `rem`.
pub open spec fn stop_error(rem: Seq<u8>) -> WalErrorView {
    match decode(rem) {
        Ok(_) => WalErrorView::Io(Seq::empty()),
        Err(e) => e,
    }
}

/// What a look at the framing of the next record found.
#[derive(Debug, Clone, Copy, PartialEq, Eq, Structural)]
pub enum RecordProbe {
    /// The input ends before the record does.
    Short,
    /// A whole record of `len` bytes whose checksum fails.
    BadChecksum { len: usize },
    /// A whole record of `len` bytes with a matching checksum.
    Whole { len: usize },
}

/// Looks at the framing at the front of `data`: is a whole record there, and
/// does its checksum hold?
pub fn probe_record(data: &[u8]) -> (p: RecordProbe)
    ensures
        match p {
            RecordProbe::Short => is_short(data@),
            RecordProbe::BadChecksum { len } => !is_short(data@) && len == declared_record_len(
                data@,
            ) && checksum_fails(data@),
            RecordProbe::Whole { len } => !is_short(data@) && len == declared_record_len(data@)
                && !checksum_fails(data@),
        },
{
    if data.len() < HEADER_LEN + CHECKSUM_LEN {
        proof {
            if data.len() >= HEADER_LEN {
                assert(declared_record_len(data@) >= HEADER_LEN + CHECKSUM_LEN);
            }
        }
        return RecordProbe::Short;
    }
    let key_len: u64 = u64_from_le_bytes(slice_subrange(data, 25, 33));
    let value_len: u64 = u64_from_le_bytes(slice_subrange(data, 33, 41));
    let room: usize = data.len() - HEADER_LEN - CHECKSUM_LEN;
    if key_len > room as u64 || value_len > room as u64 - key_len {
        return RecordProbe::Short;
    }
    let body_end: usize = HEADER_LEN + key_len as usize + value_len as usize;
    let stored: u32 = u32_from_le_bytes(slice_subrange(data, body_end, body_end + 4));
    let computed: u32 = crc32(slice_subrange(data, 0, body_end));
    if stored != computed {
        RecordProbe::BadChecksum { len: body_end + 4 }
    } else {
        RecordProbe::Whole { len: body_end + 4 }
    }
}

/// What a scan of one segment found.
#[derive(Debug)]
pub struct SegmentScan {
    /// The records read, in order, each with its offset.
    pub entries: Vec<ReplayedEntry>,
    /// Bytes of the segment taken up by those records.
    pub valid_len: usize,
    /// Whether a torn write follows them: the segment is then to be cut back
    /// to `valid_len`.
    pub torn: bool,
}

/// Reads the records of one segment. `base` is the offset of the segment's
/// first byte in the offsets handed out; `is_last` says that this is the
/// newest segment, the only one that may end in a torn write.
///
/// The scan succeeds where the records run to the end of the data, or where
/// what follows them is a torn write. Anything else after the last good
/// record is corruption: the error names the offset and carries the decoder's
/// message.
pub fn scan_segment(data: &[u8], base: u64, is_last: bool) -> (r: Result<SegmentScan, WalError>)
    requires
        base + data@.len() <= u64::MAX,
    ensures
        r is Ok <==> (good_prefix_len(data@) == data@.len() || is_torn(
            data@.skip(good_prefix_len(data@) as int),
            is_last,
        )),
        r matches Ok(scan) ==> {
            &&& replayed_views(scan.entries@) == scan_records(data@, base as nat)
            &&& scan.valid_len == good_prefix_len(data@)
            &&& scan.torn == (good_prefix_len(data@) < data@.len())
        },
        r matches Err(e) ==> e@ == (WalErrorView::ReplayError {
            offset: (base + good_prefix_len(data@)) as u64,
            reason: stop_error(data@.skip(good_prefix_len(data@) as int)).message_text(),
        }),
{
    let mut entries: Vec<ReplayedEntry> = Vec::new();
    let mut pos: usize = 0;
    assert(data@.skip(0) =~= data@);
    assert(replayed_views(entries@) =~= Seq::<ReplayedView>::empty());
    while pos < data.len()
        invariant
            pos <= data@.len(),
            base + data@.len() <= u64::MAX,
            good_prefix_len(data@) == pos + good_prefix_len(data@.skip(pos as int)),
            scan_records(data@, base as nat) == replayed_views(entries@) + scan_records(
                data@.skip(pos as int),
                (base + pos) as nat,
            ),
        decreases data@.len() - pos,
    {
        let rem = slice_subrange(data, pos, data.len());
        assert(rem@ == data@.skip(pos as int));
        match WalEntry::deserialize(rem) {
            Ok((entry, used)) => {
                proof {
                    lemma_encode_decode(rem@);
                    assert(rem@.skip(used as int) =~= data@.skip((pos + used) as int));
                }
                let ghost before = entries@;
                let offset: u64 = base + pos as u64;
                entries.push(ReplayedEntry { offset, entry });
                assert(replayed_views(entries@) =~= replayed_views(before) + seq![
                    ReplayedView { offset: offset as nat, entry: entry@ },
                ]);
                pos = pos + used;
            },
            Err(e) => {
                let torn = is_last && match probe_record(rem) {
                    RecordProbe::Short => true,
                    RecordProbe::BadChecksum { len } => len == rem.len(),
                    RecordProbe::Whole { len } => false,
                };
                assert(good_prefix_len(rem@) == 0);
                assert(scan_records(rem@, (base + pos) as nat) =~= Seq::<ReplayedView>::empty());
                assert(torn == is_torn(rem@, is_last));
                if torn {
                    return Ok(SegmentScan { entries, valid_len: pos, torn: true });
                }
                return Err(
                    WalError::ReplayError { offset: base + pos as u64, reason: e.message() },
                );
            },
        }
    }
    assert(data@.skip(pos as int).len() == 0);
    assert(good_prefix_len(data@.skip(pos as int)) == 0);
    assert(scan_records(data@.skip(pos as int), (base + pos) as nat) =~= Seq::<
        ReplayedView,
    >::empty());
    Ok(SegmentScan { entries, valid_len: pos, torn: false })
}

/// A log as it lies in a segment: the records' encodings, one after another.
pub open spec fn encode_log(records: Seq<WalEntryView>) -> Seq<u8>
    decreases records.len(),
{
    if records.len() == 0 {
        Seq::empty()
    } else {
        records[0].encode() + encode_log(records.skip(1))
    }
}

/// The records of a log with the offsets they lie at, the first at `at`.
pub open spec fn with_offsets(records: Seq<WalEntryView>, at: nat) -> Seq<ReplayedView>
    decreases records.len(),
{
    if records.len() == 0 {
        Seq::empty()
    } else {
        seq![ReplayedView { offset: at, entry: records[0] }] + with_offsets(
            records.skip(1),
            at + records[0].encoded_len(),
        )
    }
}

/// A record that the wire format can carry without loss: its time to live,
/// when present, is not zero, and its lengths fit the length fields.
pub open spec fn loggable(r: WalEntryView) -> bool {
    r.ttl != Some(0u64) && r.encoded_len() <= u64::MAX
}

/// What was appended is what a scan reads back: a segment that holds the
/// encodings of `records`, followed by bytes that do not decode (nothing at
/// all, or the stump of a torn write), scans to exactly `records`, each at
/// the offset it was written at, and the scan stops where the records end.
pub proof fn lemma_scan_log(records: Seq<WalEntryView>, tail: Seq<u8>, at: nat)
    requires
        forall|i: int| 0 <= i < records.len() ==> loggable(#[trigger] records[i]),
        decode(tail) is Err,
    ensures
        scan_records(encode_log(records) + tail, at) == with_offsets(records, at),
        good_prefix_len(encode_log(records) + tail) == encode_log(records).len(),
        (encode_log(records) + tail).skip(encode_log(records).len() as int) == tail,
    decreases records.len(),
{
    let data = encode_log(records) + tail;
    if records.len() == 0 {
        assert(data =~= tail);
        assert(data.skip(0) =~= tail);
    } else {
        let r = records[0];
        let rest = records.skip(1);
        let after = encode_log(rest) + tail;
        lemma_encode_len(r);
        lemma_decode_encode(r, after);
        assert(data =~= r.encode() + after);
        assert(data.skip(r.encoded_len() as int) =~= after);
        assert forall|i: int| 0 <= i < rest.len() implies loggable(#[trigger] rest[i]) by {
            assert(rest[i] == records[i + 1]);
        }
        lemma_scan_log(rest, tail, at + r.encoded_len());
        assert(data.skip(encode_log(records).len() as int) =~= tail);
    }
}

/// A record that was cut off while it was written is recognised: a proper,
/// non-empty prefix of an encoded record does not decode and counts as cut
/// short, so at the end of the newest segment it is a torn write.
pub proof fn lemma_stump_is_torn(r: WalEntryView, k: int)
    requires
        loggable(r),
        0 < k < r.encoded_len(),
    ensures
        decode(r.encode().take(k)) is Err,
        is_short(r.encode().take(k)),
        is_torn(r.encode().take(k), true),
{
    vstd::bytes::lemma_auto_spec_u64_to_from_le_bytes();
    lemma_encode_len(r);
    let full = r.encode();
    let stump = full.take(k);
    if k >= HEADER_LEN {
        assert(stump.subrange(25, 33) =~= full.subrange(25, 33));
        assert(stump.subrange(33, 41) =~= full.subrange(33, 41));
        assert(full.subrange(25, 33) =~= vstd::bytes::spec_u64_to_le_bytes(
            r.key_bytes().len() as u64,
        ));
        assert(full.subrange(33, 41) =~= vstd::bytes::spec_u64_to_le_bytes(
            r.value.len() as u64,
        ));
        assert(declared_record_len(stump) == r.encoded_len());
    }
}

/// A record whose header declares more bytes than the segment has left
/// does not decode. At the end of the newest segment it is a torn write;
/// in any other segment it is corruption.
pub proof fn lemma_overlong_record(rem: Seq<u8>, is_last: bool)
    requires
        rem.len() >= HEADER_LEN,
        declared_record_len(rem) > rem.len(),
    ensures
        decode(rem) is Err,
        good_prefix_len(rem) == 0,
        is_torn(rem, is_last) == is_last,
{
}

} // verus!

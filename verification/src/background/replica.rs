//! The replication feed.
//!
//! The primary sends each log record as a frame: the record's length as a
//! little-endian `u64`, then the record. A follower collects what arrives,
//! takes every whole frame off the front, applies its record to its own
//! engine, the same way recovery does, and in sync mode answers `ACK` per
//! record. A frame that is too long, or whose bytes are not exactly one
//! record, ends the session with `ERR`.

use crate::storage::engine::StorageEngine;
use crate::storage::laws::scanned_log;
use crate::storage::model::{queue_after_log, replay_shards};
use crate::text::{decimal_string, string_from_utf8};
use crate::wal::entry::{
    decode, lemma_decode_encode, lemma_encode_decode, lemma_encode_len, WalEntry, WalEntryView,
};
use crate::wal::replay::{good_prefix_len, loggable, scan_records, ReplayedView};
use crate::wal::segment::{
    lemma_segment_name_round_trip, parse_segment_seq, segment_name, segment_seq,
};
use vstd::bytes::{spec_u64_from_le_bytes, spec_u64_to_le_bytes, u64_from_le_bytes, u64_to_le_bytes};
use vstd::prelude::*;
use vstd::slice::slice_subrange;
use vstd::string::{StrSliceExecFns, StringExecFns};
use vstd::utf8::{decode_utf8, valid_utf8};

verus! {

/// Bytes of a frame's length field.
pub const FRAME_HEADER_LEN: usize = 8;

/// A record as a frame: its length, then its bytes.
pub open spec fn frame_of(record: Seq<u8>) -> Seq<u8> {
    spec_u64_to_le_bytes(record.len() as u64) + record
}

/// What stands at the front of a follower's buffer.
pub enum FrameStep {
    /// Not yet a whole frame.
    NeedMore,
    /// A frame of `len` bytes in all that holds exactly this record.
    Record { record: WalEntryView, len: nat },
    /// A frame that breaks the protocol.
    Bad,
}

/// Looks at the front of `buf`. A frame may hold at most `max_record`
/// bytes; a longer one is refused as soon as its length field is there.
pub open spec fn next_frame(buf: Seq<u8>, max_record: u64) -> FrameStep {
    if buf.len() < FRAME_HEADER_LEN {
        FrameStep::NeedMore
    } else {
        let n = spec_u64_from_le_bytes(buf.subrange(0, 8));
        if n > max_record {
            FrameStep::Bad
        } else if buf.len() < 8 + n {
            FrameStep::NeedMore
        } else {
            match decode(buf.subrange(8, 8 + n)) {
                Ok((record, used)) => if used == n {
                    FrameStep::Record { record, len: (8 + n) as nat }
                } else {
                    FrameStep::Bad
                },
                Err(_) => FrameStep::Bad,
            }
        }
    }
}

/// What a follower takes off its buffer in one go.
pub struct Drain {
    /// The records of the whole frames at the front, in order.
    pub records: Seq<WalEntryView>,
    /// The bytes those frames take.
    pub consumed: nat,
    /// Whether a frame that breaks the protocol follows them.
    pub failed: bool,
}

/// Takes whole frames off the front of `buf` until one is incomplete or
/// breaks the protocol.
pub open spec fn drain(buf: Seq<u8>, max_record: u64) -> Drain
    decreases buf.len(),
{
    match next_frame(buf, max_record) {
        FrameStep::NeedMore => Drain { records: Seq::empty(), consumed: 0, failed: false },
        FrameStep::Bad => Drain { records: Seq::empty(), consumed: 0, failed: true },
        FrameStep::Record { record, len } => {
            let rest = drain(buf.skip(len as int), max_record);
            Drain {
                records: seq![record] + rest.records,
                consumed: len + rest.consumed,
                failed: rest.failed,
            }
        },
    }
}

/// The answers a follower sends for one drain: `ACK` for every record when
/// in sync mode, then `ERR` where the drain failed.
pub open spec fn replies_for(d: Drain, sync_mode: bool) -> Seq<u8> {
    let acks = if sync_mode {
        acks(d.records.len())
    } else {
        Seq::empty()
    };
    if d.failed {
        acks + err_reply()
    } else {
        acks
    }
}

/// `ACK`, `n` times.
pub open spec fn acks(n: nat) -> Seq<u8>
    decreases n,
{
    if n == 0 {
        Seq::empty()
    } else {
        acks((n - 1) as nat) + ack_reply()
    }
}

/// The three bytes `ACK`.
pub open spec fn ack_reply() -> Seq<u8> {
    seq![0x41u8, 0x43u8, 0x4Bu8]
}

/// The three bytes `ERR`.
pub open spec fn err_reply() -> Seq<u8> {
    seq![0x45u8, 0x52u8, 0x52u8]
}

/// Wraps a serialized record in a frame.
pub fn encode_frame(record: &[u8]) -> (frame: Vec<u8>)
    ensures
        frame@ == frame_of(record@),
{
    let mut frame = u64_to_le_bytes(record.len() as u64);
    frame.extend_from_slice(record);
    frame
}

/// What a follower has to do after it was fed.
#[derive(Debug)]
pub struct FeedOutcome {
    /// Bytes to send back to the primary, possibly none.
    pub replies: Vec<u8>,
    /// How many records were applied.
    pub applied: usize,
    /// Whether the connection is to be closed.
    pub close: bool,
}

/// The settings of the replication listener.
pub struct ReplicaStreamer {
    bind_addr: String,
    sync_mode: bool,
    running: bool,
}

impl ReplicaStreamer {
    pub closed spec fn addr(&self) -> Seq<char> {
        self.bind_addr@
    }

    pub closed spec fn in_sync_mode(&self) -> bool {
        self.sync_mode
    }

    pub closed spec fn is_running(&self) -> bool {
        self.running
    }

    pub fn new(bind_addr: String, sync_mode: bool) -> (s: Self)
        ensures
            s.addr() == bind_addr@,
            s.in_sync_mode() == sync_mode,
            s.is_running(),
    {
        ReplicaStreamer { bind_addr, sync_mode, running: true }
    }

    /// The address to listen on.
    pub fn bind_addr(&self) -> (a: &str)
        ensures
            a@ == self.addr(),
    {
        self.bind_addr.as_str()
    }

    pub fn running(&self) -> (r: bool)
        ensures
            r == self.is_running(),
    {
        self.running
    }

    /// Whether followers acknowledge every record.
    pub fn sync_mode(&self) -> (s: bool)
        ensures
            s == self.in_sync_mode(),
    {
        self.sync_mode
    }

    /// A session for a connection that was just accepted.
    pub fn session(&self, max_record: u64) -> (s: ReplicaSession)
        ensures
            s.pending() == Seq::<u8>::empty(),
            s.sync_mode() == self.in_sync_mode(),
            s.max_record() == max_record,
            !s.is_closed(),
    {
        ReplicaSession::new(self.sync_mode, max_record)
    }

    pub fn shutdown(&mut self)
        ensures
            !final(self).is_running(),
            final(self).addr() == old(self).addr(),
            final(self).in_sync_mode() == old(self).in_sync_mode(),
    {
        self.running = false;
    }
}

/// The follower's side of one connection.
pub struct ReplicaSession {
    buffer: Vec<u8>,
    sync_mode: bool,
    max_record: u64,
    closed: bool,
}

impl ReplicaSession {
    /// The bytes received and not yet taken off.
    pub closed spec fn pending(&self) -> Seq<u8> {
        self.buffer@
    }

    pub closed spec fn sync_mode(&self) -> bool {
        self.sync_mode
    }

    /// The longest record the session takes.
    pub closed spec fn max_record(&self) -> u64 {
        self.max_record
    }

    /// Whether the session has ended.
    pub closed spec fn is_closed(&self) -> bool {
        self.closed
    }

    /// A fresh session. `max_record` is the longest record taken, the
    /// primary's segment size.
    pub fn new(sync_mode: bool, max_record: u64) -> (s: Self)
        ensures
            s.pending() == Seq::<u8>::empty(),
            s.sync_mode() == sync_mode,
            s.max_record() == max_record,
            !s.is_closed(),
    {
        ReplicaSession { buffer: Vec::new(), sync_mode, max_record, closed: false }
    }

    pub fn closed(&self) -> (c: bool)
        ensures
            c == self.is_closed(),
    {
        self.closed
    }

    /// Takes in what arrived on the connection.
    ///
    /// The bytes join those still pending; every whole frame at the front is
    /// taken off and its record applied to `engine`, in order. What is left
    /// stays pending. A frame that breaks the protocol ends the session:
    /// the records before it are applied, `ERR` is sent and the connection
    /// is to be closed. A session that has ended takes in nothing.
    pub fn feed(&mut self, engine: &mut StorageEngine, chunk: &[u8]) -> (out: FeedOutcome)
        requires
            old(engine).wf(),
        ensures
            final(engine).wf(),
            final(engine).is_read_only() == old(engine).is_read_only(),
            final(self).sync_mode() == old(self).sync_mode(),
            final(self).max_record() == old(self).max_record(),
            old(self).is_closed() ==> {
                &&& final(self).is_closed()
                &&& final(self).pending() == old(self).pending()
                &&& final(engine).shard_maps() == old(engine).shard_maps()
                &&& final(engine).ttl_events() == old(engine).ttl_events()
                &&& out.replies@ == Seq::<u8>::empty()
                &&& out.applied == 0
                &&& out.close
            },
            !old(self).is_closed() ==> ({
                let buf = old(self).pending() + chunk@;
                let d = drain(buf, old(self).max_record());
                &&& final(engine).shard_maps() == replay_shards(
                    old(engine).shard_maps(),
                    d.records,
                )
                &&& final(engine).ttl_events() == queue_after_log(
                    old(engine).ttl_events(),
                    d.records,
                )
                &&& out.replies@ == replies_for(d, old(self).sync_mode())
                &&& out.applied == d.records.len()
                &&& out.close == d.failed
                &&& final(self).is_closed() == d.failed
                &&& d.consumed <= buf.len()
                &&& final(self).pending() == buf.skip(d.consumed as int)
            }),
    {
        let mut replies: Vec<u8> = Vec::new();
        if self.closed {
            return FeedOutcome { replies, applied: 0, close: true };
        }
        self.buffer.extend_from_slice(chunk);
        let ghost buf = self.buffer@;
        let ghost start = engine.shard_maps();
        let ghost max = self.max_record;
        let ghost done: Seq<WalEntryView> = Seq::empty();
        let mut pos: usize = 0;
        let mut applied: usize = 0;
        let mut failed = false;
        assert(buf.skip(0) =~= buf);
        loop
            invariant_except_break
                !failed,
                drain(buf, max).records == done + drain(buf.skip(pos as int), max).records,
                drain(buf, max).consumed == pos + drain(buf.skip(pos as int), max).consumed,
                drain(buf, max).failed == drain(buf.skip(pos as int), max).failed,
            invariant
                pos <= buf.len(),
                applied == done.len(),
                applied <= pos,
                self.buffer@ == buf,
                self.max_record == max,
                self.sync_mode == old(self).sync_mode,
                !self.closed,
                engine.wf(),
                engine.is_read_only() == old(engine).is_read_only(),
                engine.shard_maps() == replay_shards(start, done),
                engine.ttl_events() == queue_after_log(old(engine).ttl_events(), done),
                replies@ == if self.sync_mode {
                    acks(done.len())
                } else {
                    Seq::<u8>::empty()
                },
            ensures
                drain(buf, max).records == done,
                drain(buf, max).consumed == pos,
                drain(buf, max).failed == failed,
            decreases buf.len() - pos,
        {
            let ghost rest = buf.skip(pos as int);
            let room: usize = self.buffer.len() - pos;
            if room < FRAME_HEADER_LEN {
                proof {
                    assert(done + Seq::<WalEntryView>::empty() =~= done);
                }
                break;
            }
            let n: u64 = u64_from_le_bytes(slice_subrange(self.buffer.as_slice(), pos, pos + 8));
            assert(rest.subrange(0, 8) =~= buf.subrange(pos as int, pos + 8));
            if n > self.max_record {
                failed = true;
                proof {
                    assert(done + Seq::<WalEntryView>::empty() =~= done);
                }
                break;
            }
            if n > (room - FRAME_HEADER_LEN) as u64 {
                proof {
                    assert(done + Seq::<WalEntryView>::empty() =~= done);
                }
                break;
            }
            let from: usize = pos + FRAME_HEADER_LEN;
            let to: usize = from + n as usize;
            assert(rest.subrange(8, 8 + n) =~= buf.subrange(from as int, to as int));
            let parsed = WalEntry::deserialize(slice_subrange(self.buffer.as_slice(), from, to));
            let entry = match parsed {
                Ok((entry, used)) => {
                    if used as u64 != n {
                        failed = true;
                        proof {
                            assert(done + Seq::<WalEntryView>::empty() =~= done);
                        }
                        break;
                    }
                    entry
                },
                Err(_) => {
                    failed = true;
                    proof {
                        assert(done + Seq::<WalEntryView>::empty() =~= done);
                    }
                    break;
                },
            };
            let _ = engine.apply_wal_entry(&entry);
            if self.sync_mode {
                replies.push(0x41);
                replies.push(0x43);
                replies.push(0x4B);
            }
            proof {
                let next = done.push(entry@);
                assert(next.drop_last() =~= done);
                assert(rest.skip(8 + n) =~= buf.skip(to as int));
                assert(done + (seq![entry@] + drain(buf.skip(to as int), max).records) =~= next
                    + drain(buf.skip(to as int), max).records);
                if self.sync_mode {
                    assert(replies@ =~= acks(done.len()) + ack_reply());
                }
                done = next;
            }
            applied = applied + 1;
            pos = to;
        }
        if failed {
            replies.push(0x45);
            replies.push(0x52);
            replies.push(0x52);
            self.closed = true;
        }
        proof {
            let d = drain(buf, max);
            assert(buf == old(self).pending() + chunk@);
            assert(max == old(self).max_record());
            assert(start == old(engine).shard_maps());
            assert(d.records == done);
            assert(engine.shard_maps() == replay_shards(start, d.records));
            if failed {
                assert(replies@ =~= replies_for(d, self.sync_mode));
            }
            assert(replies@ == replies_for(d, old(self).sync_mode()));
        }
        let rest = vstd::slice::slice_to_vec(
            slice_subrange(self.buffer.as_slice(), pos, self.buffer.len()),
        );
        assert(rest@ =~= buf.skip(pos as int));
        self.buffer = rest;
        FeedOutcome { replies, applied, close: failed }
    }
}

/// A run of records as the primary streams them: one frame after another.
pub open spec fn encode_frames(records: Seq<WalEntryView>) -> Seq<u8>
    decreases records.len(),
{
    if records.len() == 0 {
        Seq::empty()
    } else {
        frame_of(records[0].encode()) + encode_frames(records.skip(1))
    }
}

/// What the primary streams is what the follower applies: the frames of a
/// run of records, with perhaps the beginning of a further frame behind
/// them, drain to exactly those records, without failure.
pub proof fn lemma_drain_frames(records: Seq<WalEntryView>, tail: Seq<u8>, max_record: u64)
    requires
        forall|i: int|
            0 <= i < records.len() ==> loggable(#[trigger] records[i]) && records[i].encoded_len()
                <= max_record,
        next_frame(tail, max_record) is NeedMore,
    ensures
        drain(encode_frames(records) + tail, max_record).records == records,
        drain(encode_frames(records) + tail, max_record).consumed == encode_frames(records).len(),
        !drain(encode_frames(records) + tail, max_record).failed,
    decreases records.len(),
{
    let buf = encode_frames(records) + tail;
    if records.len() == 0 {
        assert(buf =~= tail);
    } else {
        vstd::bytes::lemma_auto_spec_u64_to_from_le_bytes();
        let r = records[0];
        let rest = records.skip(1);
        let body = r.encode();
        let after = encode_frames(rest) + tail;
        lemma_encode_len(r);
        let n = body.len() as int;
        assert(buf =~= frame_of(body) + after);
        assert(buf.subrange(0, 8) =~= spec_u64_to_le_bytes(n as u64));
        assert(buf.subrange(8, 8 + n) =~= body);
        lemma_decode_encode(r, Seq::<u8>::empty());
        assert(body + Seq::<u8>::empty() =~= body);
        assert(buf.skip(8 + n) =~= after);
        assert forall|i: int| 0 <= i < rest.len() implies loggable(#[trigger] rest[i])
            && rest[i].encoded_len() <= max_record by {
            assert(rest[i] == records[i + 1]);
        }
        lemma_drain_frames(rest, tail, max_record);
        assert(seq![r] + rest =~= records);
    }
}

/// The frames of the records at the front of a stretch of log. The views
/// are those of a scan of the same bytes.
pub open spec fn frames_of_log(data: Seq<u8>) -> Seq<u8>
    decreases data.len(),
{
    match decode(data) {
        Ok((r, n)) => if 0 < n <= data.len() {
            frame_of(data.subrange(0, n as int)) + frames_of_log(data.skip(n as int))
        } else {
            Seq::empty()
        },
        Err(_) => Seq::empty(),
    }
}

/// Frames the records of a stretch of log for a follower that catches up:
/// every whole record at the front of `data` becomes one frame, in order.
/// Hands back the frames and the number of bytes of `data` they cover; what
/// follows the last whole record is left out.
pub fn frame_segment(data: &[u8]) -> (r: (Vec<u8>, usize))
    ensures
        r.0@ == frames_of_log(data@),
        r.1 == good_prefix_len(data@),
        r.1 <= data@.len(),
{
    let mut frames: Vec<u8> = Vec::new();
    let mut pos: usize = 0;
    assert(data@.skip(0) =~= data@);
    loop
        invariant_except_break
            frames_of_log(data@) == frames@ + frames_of_log(data@.skip(pos as int)),
            good_prefix_len(data@) == pos
                + good_prefix_len(data@.skip(pos as int)),
        invariant
            pos <= data@.len(),
        ensures
            frames_of_log(data@) == frames@,
            good_prefix_len(data@) == pos,
        decreases data@.len() - pos,
    {
        let rem = slice_subrange(data, pos, data.len());
        assert(rem@ == data@.skip(pos as int));
        match WalEntry::deserialize(rem) {
            Ok((_, used)) => {
                proof {
                    lemma_encode_decode(rem@);
                    assert(rem@.skip(used as int) =~= data@.skip((pos + used) as int));
                }
                let ghost before = frames@;
                let record = slice_subrange(rem, 0, used);
                let mut frame = encode_frame(record);
                frames.append(&mut frame);
                proof {
                    assert(frames@ =~= before + frame_of(rem@.subrange(0, used as int)));
                    assert(before + (frame_of(rem@.subrange(0, used as int)) + frames_of_log(
                        rem@.skip(used as int),
                    )) =~= frames@ + frames_of_log(data@.skip((pos + used) as int)));
                }
                pos = pos + used;
            },
            Err(_) => {
                proof {
                    assert(frames@ + Seq::<u8>::empty() =~= frames@);
                }
                break;
            },
        }
    }
    (frames, pos)
}

/// What the primary frames from its log is what a follower applies, and it
/// is what the primary's own recovery reads from the same bytes: the frames
/// of a stretch of log drain to exactly the records that a scan of the
/// stretch finds, provided no record is longer than the follower takes.
pub proof fn lemma_stream_matches_scan(data: Seq<u8>, at: nat, max_record: u64)
    requires
        forall|i: int|
            0 <= i < scan_records(data, at).len() ==> (#[trigger] scan_records(
                data,
                at,
            )[i]).entry.encoded_len() <= max_record,
    ensures
        drain(frames_of_log(data), max_record).records == scanned_log(scan_records(data, at)),
        drain(frames_of_log(data), max_record).consumed == frames_of_log(data).len(),
        !drain(frames_of_log(data), max_record).failed,
    decreases data.len(),
{
    let frames = frames_of_log(data);
    let found = scan_records(data, at);
    match decode(data) {
        Ok((r, n)) => {
            lemma_encode_decode(data);
            vstd::bytes::lemma_auto_spec_u64_to_from_le_bytes();
            let rest = data.skip(n as int);
            let record = data.subrange(0, n as int);
            let later = scan_records(rest, at + n);
            assert(found =~= seq![ReplayedView { offset: at, entry: r }]
                + later);
            assert(found[0].entry == r);
            assert forall|i: int| 0 <= i < later.len() implies (
            #[trigger] later[i]).entry.encoded_len() <= max_record by {
                assert(found[i + 1] == later[i]);
            }
            lemma_stream_matches_scan(rest, at + n, max_record);
            lemma_decode_encode(r, Seq::<u8>::empty());
            assert(r.encode() + Seq::<u8>::empty() =~= r.encode());
            let after = frames_of_log(rest);
            assert(frames == frame_of(record) + after);
            assert(frames.subrange(0, 8) =~= spec_u64_to_le_bytes(n as u64));
            assert(frames.subrange(8, 8 + n as int) =~= record);
            assert(frames.skip(8 + n as int) =~= after);
            assert(scanned_log(found) =~= seq![r] + scanned_log(later));
        },
        Err(_) => {
            assert(scanned_log(found) =~= Seq::<WalEntryView>::empty());
        },
    }
}

/// The greeting a follower opens with: `HELLO`, a line feed, the offset to
/// stream from in decimal, a line feed.
pub open spec fn hello_text(offset: u64) -> Seq<char> {
    segment_name("HELLO\n"@, offset).push('\n')
}

/// The offset that a greeting asks for, if the text is a greeting.
pub open spec fn hello_offset(text: Seq<char>) -> Option<u64> {
    if text.len() > 0 && text.last() == '\n' {
        segment_seq(text.drop_last(), "HELLO\n"@)
    } else {
        None
    }
}

/// The primary's answer to a greeting: `OK` and a line feed.
pub open spec fn ok_reply() -> Seq<u8> {
    seq![0x4Fu8, 0x4Bu8, 0x0Au8]
}

/// The greeting of a follower that wants the stream from `offset` on.
pub fn hello_message(offset: u64) -> (text: String)
    ensures
        text@ == hello_text(offset),
{
    let mut text = "HELLO\n".to_owned();
    let ghost head = text@;
    text.append(decimal_string(offset).as_str());
    let ghost body = text@;
    text.append("\n");
    proof {
        reveal_strlit("\n");
        assert("\n"@ =~= seq!['\n']);
        assert(text@ =~= body.push('\n'));
    }
    text
}

/// Reads a follower's greeting.
pub fn parse_hello(text: &str) -> (r: Option<u64>)
    ensures
        r == hello_offset(text@),
{
    let n: usize = text.unicode_len();
    if n == 0 {
        return None;
    }
    if text.get_char(n - 1) != '\n' {
        return None;
    }
    let body = text.substring_char(0, n - 1);
    assert(body@ =~= text@.drop_last());
    parse_segment_seq(body, "HELLO\n")
}

/// The primary's answer to a greeting.
pub fn ok_message() -> (bytes: Vec<u8>)
    ensures
        bytes@ == ok_reply(),
{
    let mut bytes: Vec<u8> = Vec::new();
    bytes.push(0x4F);
    bytes.push(0x4B);
    bytes.push(0x0A);
    assert(bytes@ =~= ok_reply());
    bytes
}

/// The longest greeting there is room for.
pub const MAX_GREETING_LEN: usize = 64;

/// How many line feeds a byte string holds.
pub open spec fn line_feeds(buf: Seq<u8>) -> nat
    decreases buf.len(),
{
    if buf.len() == 0 {
        0
    } else {
        line_feeds(buf.drop_last()) + if buf.last() == 0x0Au8 {
            1nat
        } else {
            0nat
        }
    }
}

/// What the bytes received so far make of a greeting.
#[derive(Debug, Clone, Copy, PartialEq, Eq, Structural)]
pub enum GreetingStep {
    /// The greeting is not whole yet.
    NeedMore,
    /// A whole greeting that asks for the stream from this offset.
    Offset(u64),
    /// Not a greeting.
    Bad,
}

/// Judges the bytes received so far: a greeting is whole once it holds two
/// line feeds, and given up once it is as long as a greeting may be; what
/// is whole has to be text and to read as a greeting.
pub open spec fn greeting_step(buf: Seq<u8>) -> GreetingStep {
    if line_feeds(buf) < 2 && buf.len() < MAX_GREETING_LEN {
        GreetingStep::NeedMore
    } else if valid_utf8(buf) {
        match hello_offset(decode_utf8(buf)) {
            Some(offset) => GreetingStep::Offset(offset),
            None => GreetingStep::Bad,
        }
    } else {
        GreetingStep::Bad
    }
}

/// The five bytes `HELLO`.
pub open spec fn hello_word() -> Seq<u8> {
    seq![0x48u8, 0x45u8, 0x4Cu8, 0x4Cu8, 0x4Fu8]
}

/// Whether what a peer sent first opens a greeting: it starts with `HELLO`.
/// Such a peer is a follower asking for the stream; any other peer sends
/// frames.
pub fn is_greeting(first: &[u8]) -> (r: bool)
    ensures
        r == hello_word().is_prefix_of(first@),
{
    if first.len() < 5 {
        return false;
    }
    let r = first[0] == 0x48 && first[1] == 0x45 && first[2] == 0x4C && first[3] == 0x4C
        && first[4] == 0x4F;
    proof {
        let head = first@.subrange(0, 5);
        assert(head[0] == first@[0] && head[1] == first@[1] && head[2] == first@[2] && head[3]
            == first@[3] && head[4] == first@[4]);
        if r {
            assert(head =~= hello_word());
        }
    }
    r
}

/// Judges the bytes of a greeting received so far.
pub fn read_greeting(buf: &[u8]) -> (r: GreetingStep)
    ensures
        r == greeting_step(buf@),
{
    let mut feeds: usize = 0;
    let mut i: usize = 0;
    assert(buf@.take(0) =~= Seq::<u8>::empty());
    while i < buf.len()
        invariant
            i <= buf@.len(),
            feeds == line_feeds(buf@.take(i as int)),
            feeds <= i,
        decreases buf@.len() - i,
    {
        assert(buf@.take(i + 1).drop_last() =~= buf@.take(i as int));
        if buf[i] == 0x0A {
            feeds = feeds + 1;
        }
        i = i + 1;
    }
    assert(buf@.take(i as int) =~= buf@);
    if feeds < 2 && buf.len() < MAX_GREETING_LEN {
        return GreetingStep::NeedMore;
    }
    match string_from_utf8(buf) {
        Some(text) => match parse_hello(text.as_str()) {
            Some(offset) => GreetingStep::Offset(offset),
            None => GreetingStep::Bad,
        },
        None => GreetingStep::Bad,
    }
}

/// A greeting reads back as the offset it asks for.
pub proof fn lemma_hello_round_trip(offset: u64)
    ensures
        hello_offset(hello_text(offset)) == Some(offset),
{
    lemma_segment_name_round_trip("HELLO\n"@, offset);
    let text = hello_text(offset);
    assert(text.drop_last() =~= segment_name("HELLO\n"@, offset));
}

} // verus!

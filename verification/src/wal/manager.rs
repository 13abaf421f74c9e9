//! The bookkeeping of the active segment.
//!
//! The manager decides; its caller does the file work. It knows which segment
//! is open, how far it has been written and how far it is known to be on
//! disk, and for each record it says where the record goes, whether the
//! segment has to be rotated first, and whether the write has to be forced to
//! disk before the caller may report success.

use crate::wal::config::{SyncPolicy, WalConfig, WalConfigView};
use crate::wal::entry::{lemma_encode_len, WalEntry, WalEntryView};
use crate::wal::error::{WalError, WalErrorView};
use crate::wal::replay::{
    good_prefix_len, is_torn, replayed_views, scan_records, scan_segment, stop_error, SegmentScan,
};
use crate::wal::segment::{highest_segment_seq, is_highest_seq, name_views};
use vstd::prelude::*;

verus! {

/// Where the active segment stands in its life.
#[derive(Debug, Clone, Copy, PartialEq, Eq, Structural)]
pub enum SegmentState {
    /// No segment is open yet.
    Opening,
    /// A segment is open for append.
    Active,
    /// The full segment is being closed and its successor opened.
    Rotating,
    /// The log was shut down.
    Closed,
}

/// The manager's state as plain data.
pub struct WalManagerView {
    pub config: WalConfigView,
    pub state: SegmentState,
    /// Number of the active segment; segments count from one.
    pub seq: u64,
    /// Bytes written to the active segment.
    pub offset: u64,
    /// Bytes of the active segment known to be on disk.
    pub durable: u64,
    /// File operations that have failed in a row.
    pub failures: u32,
}

pub struct WalManager {
    config: WalConfig,
    state: SegmentState,
    seq: u64,
    offset: u64,
    durable: u64,
    failures: u32,
}

/// How many file operations have to fail in a row for the failure to count
/// as persistent.
pub const PERSISTENT_FAILURES: u32 = 3;

/// What the caller has to do for one append, in this order: rotate where
/// `rotated` says so (force the old segment to disk, close it, open segment
/// `seq`), write `bytes` at `offset`, and force them to disk where `sync`
/// says so.
#[derive(Debug)]
pub struct Appended {
    pub bytes: Vec<u8>,
    pub rotated: bool,
    pub seq: u64,
    pub offset: u64,
    pub sync: bool,
}

/// The offset of a position in the whole log: segments are laid end to end,
/// each taking `max_file_size`.
pub open spec fn global_offset_of(seq: u64, offset: u64, max_file_size: u64) -> int {
    seq * max_file_size + offset
}

impl View for WalManager {
    type V = WalManagerView;

    closed spec fn view(&self) -> WalManagerView {
        WalManagerView {
            config: self.config@,
            state: self.state,
            seq: self.seq,
            offset: self.offset,
            durable: self.durable,
            failures: self.failures,
        }
    }
}

impl WalManagerView {
    /// An open segment has a number, and no more is on disk than was written.
    pub open spec fn wf(self) -> bool {
        &&& self.durable <= self.offset
        &&& (self.state == SegmentState::Active || self.state == SegmentState::Rotating
            ==> self.seq >= 1)
    }

    /// Whether a record of `len` bytes makes the active segment rotate: it
    /// does where it would end beyond the segment's largest size.
    pub open spec fn must_rotate(self, len: nat) -> bool {
        self.offset + len > self.config.max_file_size
    }

    /// Why `entry` cannot be appended, if it cannot.
    pub open spec fn append_error(self, entry: WalEntryView) -> Option<WalErrorView> {
        if self.state != SegmentState::Active {
            Some(WalErrorView::Io("write-ahead log is not open"@))
        } else if !entry.wf() {
            Some(WalErrorView::InvalidEntry { offset: self.offset, reason: "malformed record"@ })
        } else if entry.encoded_len() > self.config.max_file_size || entry.encoded_len()
            > isize::MAX {
            Some(
                WalErrorView::InvalidEntry {
                    offset: self.offset,
                    reason: "record larger than a segment"@,
                },
            )
        } else if self.must_rotate(entry.encoded_len()) && self.seq == u64::MAX {
            Some(WalErrorView::Io("segment numbers exhausted"@))
        } else {
            None
        }
    }

    /// The state after `entry` was appended.
    pub open spec fn after_append(self, entry: WalEntryView) -> WalManagerView {
        let len = entry.encoded_len();
        let rotate = self.must_rotate(len);
        let start: nat = if rotate {
            0
        } else {
            self.offset as nat
        };
        let sync = self.config.sync_policy == SyncPolicy::EveryWrite;
        WalManagerView {
            seq: if rotate {
                (self.seq + 1) as u64
            } else {
                self.seq
            },
            offset: (start + len) as u64,
            durable: if sync {
                (start + len) as u64
            } else if rotate {
                0
            } else {
                self.durable
            },
            ..self
        }
    }
}

impl WalManager {
    /// A manager with no segment open yet.
    pub fn new(config: WalConfig) -> (m: Self)
        ensures
            m@ == (WalManagerView {
                config: config@,
                state: SegmentState::Opening,
                seq: 0,
                offset: 0,
                durable: 0,
                failures: 0,
            }),
            m@.wf(),
    {
        WalManager {
            config,
            state: SegmentState::Opening,
            seq: 0,
            offset: 0,
            durable: 0,
            failures: 0,
        }
    }

    pub fn config(&self) -> (c: &WalConfig)
        ensures
            c@ == self@.config,
    {
        &self.config
    }

    pub fn state(&self) -> (s: SegmentState)
        ensures
            s == self@.state,
    {
        self.state
    }

    /// Number of the active segment.
    pub fn current_seq(&self) -> (seq: u64)
        ensures
            seq == self@.seq,
    {
        self.seq
    }

    /// Bytes written to the active segment so far.
    pub fn current_offset(&self) -> (offset: u64)
        ensures
            offset == self@.offset,
    {
        self.offset
    }

    /// Bytes of the active segment known to be on disk. A caller that needs
    /// durability waits until this has passed the end of its record.
    pub fn durable_offset(&self) -> (offset: u64)
        ensures
            offset == self@.durable,
    {
        self.durable
    }

    /// The position `(seq, offset)` as one number that grows along the log,
    /// or `None` where it does not fit a `u64`.
    pub fn global_offset(&self, seq: u64, offset: u64) -> (g: Option<u64>)
        ensures
            match g {
                Some(v) => v == global_offset_of(seq, offset, self@.config.max_file_size),
                None => global_offset_of(seq, offset, self@.config.max_file_size) > u64::MAX,
            },
    {
        let max: u64 = self.config.max_file_size;
        assert(seq * max >= 0) by (nonlinear_arith)
            requires
                seq >= 0,
                max >= 0,
        ;
        match seq.checked_mul(max) {
            Some(base) => base.checked_add(offset),
            None => None,
        }
    }

    /// The segment and the offset in it that a global offset names; `None`
    /// where segments have no size.
    pub fn locate(&self, global: u64) -> (r: Option<(u64, u64)>)
        ensures
            r is Some <==> self@.config.max_file_size > 0,
            r matches Some((seq, offset)) ==> offset < self@.config.max_file_size
                && global_offset_of(seq, offset, self@.config.max_file_size) == global,
    {
        let max: u64 = self.config.max_file_size;
        if max == 0 {
            return None;
        }
        let seq: u64 = global / max;
        let offset: u64 = global % max;
        assert(seq * max + offset == global) by (nonlinear_arith)
            requires
                max > 0,
                seq == global / max,
                offset == global % max,
        ;
        Some((seq, offset))
    }

    /// Which segment to open at startup, given the file names found in the
    /// log directory: the one with the highest number, or number one where
    /// there is none yet.
    pub fn open_next_file(&self, names: &Vec<String>) -> (seq: u64)
        ensures
            seq >= 1,
            is_highest_seq(name_views(names@), self@.config.file_prefix, seq) || (seq == 1
                && is_highest_seq(name_views(names@), self@.config.file_prefix, 0)),
    {
        let highest: u64 = highest_segment_seq(names, self.config.file_prefix.as_str());
        if highest == 0 {
            1
        } else {
            highest
        }
    }

    /// Records that segment `seq` was opened and holds `len` bytes, all of
    /// them on disk. The manager becomes active, unless it was shut down.
    pub fn opened(&mut self, seq: u64, len: u64)
        requires
            seq >= 1,
        ensures
            old(self)@.state == SegmentState::Closed ==> final(self)@ == old(self)@,
            old(self)@.state != SegmentState::Closed ==> final(self)@ == (WalManagerView {
                state: SegmentState::Active,
                seq,
                offset: len,
                durable: len,
                ..old(self)@
            }),
            old(self)@.wf() ==> final(self)@.wf(),
    {
        match self.state {
            SegmentState::Closed => {},
            _ => {
                self.state = SegmentState::Active;
                self.seq = seq;
                self.offset = len;
                self.durable = len;
            },
        }
    }

    /// Plans the append of one record without changing anything: where the
    /// record goes, whether the segment has to be rotated first, whether the
    /// write has to be forced to disk. The caller does the file work and then
    /// confirms it with [`Self::commit`]; where the file work fails the
    /// manager is left as it was.
    ///
    /// The record goes to the end of the active segment. Where it would end
    /// beyond `max_file_size` the segment is rotated first and the record
    /// opens the next one, so no record lies across two segments.
    pub fn plan_append(&self, entry: &WalEntry) -> (r: Result<Appended, WalError>)
        requires
            self@.wf(),
        ensures
            match r {
                Ok(a) => {
                    &&& self@.append_error(entry@) is None
                    &&& a.bytes@ == entry@.encode()
                    &&& a.rotated == self@.must_rotate(entry@.encoded_len())
                    &&& a.seq == self@.after_append(entry@).seq
                    &&& a.offset + entry@.encoded_len() == self@.after_append(entry@).offset
                    &&& a.offset + entry@.encoded_len() <= self@.config.max_file_size
                    &&& a.rotated ==> a.offset == 0
                    &&& !a.rotated ==> a.offset == self@.offset
                    &&& a.sync == (self@.config.sync_policy == SyncPolicy::EveryWrite)
                },
                Err(e) => self@.append_error(entry@) == Some(e@),
            },
    {
        match self.state {
            SegmentState::Active => {},
            _ => {
                return Err(WalError::Io("write-ahead log is not open".to_owned()));
            },
        }
        if !entry.is_valid() {
            return Err(
                WalError::InvalidEntry {
                    offset: self.offset,
                    reason: "malformed record".to_owned(),
                },
            );
        }
        let len: u64 = match entry.serialized_len() {
            Some(n) => n as u64,
            None => {
                return Err(
                    WalError::InvalidEntry {
                        offset: self.offset,
                        reason: "record larger than a segment".to_owned(),
                    },
                );
            },
        };
        let max: u64 = self.config.max_file_size;
        if len > max {
            return Err(
                WalError::InvalidEntry {
                    offset: self.offset,
                    reason: "record larger than a segment".to_owned(),
                },
            );
        }
        let rotate = self.offset > max - len;
        if rotate && self.seq == u64::MAX {
            return Err(WalError::Io("segment numbers exhausted".to_owned()));
        }
        let bytes = entry.serialize();
        let sync = match self.config.sync_policy {
            SyncPolicy::EveryWrite => true,
            _ => false,
        };
        let start: u64 = if rotate {
            0
        } else {
            self.offset
        };
        let seq: u64 = if rotate {
            self.seq + 1
        } else {
            self.seq
        };
        Ok(Appended { bytes, rotated: rotate, seq, offset: start, sync })
    }

    /// Confirms that the file work of a planned append was done: the
    /// manager now stands in the plan's segment behind the record, and what
    /// the plan had forced to disk counts as durable.
    pub fn commit(&mut self, a: &Appended)
        requires
            a.seq >= 1,
            a.offset + a.bytes@.len() <= u64::MAX,
        ensures
            final(self)@ == (WalManagerView {
                seq: a.seq,
                offset: (a.offset + a.bytes@.len()) as u64,
                durable: if a.sync {
                    (a.offset + a.bytes@.len()) as u64
                } else if a.rotated {
                    0
                } else if old(self)@.durable <= a.offset {
                    old(self)@.durable
                } else {
                    a.offset
                },
                ..old(self)@
            }),
            old(self)@.wf() ==> final(self)@.wf(),
    {
        self.seq = a.seq;
        self.offset = a.offset + a.bytes.len() as u64;
        if a.sync {
            self.durable = self.offset;
        } else if a.rotated {
            self.durable = 0;
        } else if self.durable > a.offset {
            self.durable = a.offset;
        }
    }

    /// Places one record in the log: plans the append and confirms it at
    /// once, for a caller to whom a failure of the file work is fatal. On an
    /// error nothing changes.
    pub fn append(&mut self, entry: &WalEntry) -> (r: Result<Appended, WalError>)
        requires
            old(self)@.wf(),
        ensures
            final(self)@.wf(),
            match r {
                Ok(a) => {
                    &&& old(self)@.append_error(entry@) is None
                    &&& final(self)@ == old(self)@.after_append(entry@)
                    &&& a.bytes@ == entry@.encode()
                    &&& a.rotated == old(self)@.must_rotate(entry@.encoded_len())
                    &&& a.seq == final(self)@.seq
                    &&& a.offset + entry@.encoded_len() == final(self)@.offset
                    &&& a.offset + entry@.encoded_len() <= final(self)@.config.max_file_size
                    &&& a.rotated ==> a.offset == 0
                    &&& !a.rotated ==> a.offset == old(self)@.offset
                    &&& a.sync == (old(self)@.config.sync_policy == SyncPolicy::EveryWrite)
                },
                Err(e) => old(self)@.append_error(entry@) == Some(e@) && final(self)@ == old(
                    self,
                )@,
            },
    {
        match self.plan_append(entry) {
            Ok(a) => {
                proof {
                    lemma_encode_len(entry@);
                }
                self.commit(&a);
                Ok(a)
            },
            Err(e) => Err(e),
        }
    }

    /// Records that a file operation of the log failed, and says whether the
    /// failure is persistent by now: it is once as many operations as
    /// [`PERSISTENT_FAILURES`] have failed in a row. On a persistent failure
    /// the caller makes the engine read-only.
    pub fn io_failed(&mut self) -> (persistent: bool)
        ensures
            final(self)@ == (WalManagerView {
                failures: if old(self)@.failures < u32::MAX {
                    (old(self)@.failures + 1) as u32
                } else {
                    u32::MAX
                },
                ..old(self)@
            }),
            persistent == (final(self)@.failures >= PERSISTENT_FAILURES),
            old(self)@.wf() ==> final(self)@.wf(),
    {
        if self.failures < u32::MAX {
            self.failures = self.failures + 1;
        }
        self.failures >= PERSISTENT_FAILURES
    }

    /// Records that a file operation of the log went through: the failures
    /// before it were transient.
    pub fn io_succeeded(&mut self)
        ensures
            final(self)@ == (WalManagerView { failures: 0, ..old(self)@ }),
            old(self)@.wf() ==> final(self)@.wf(),
    {
        self.failures = 0;
    }

    /// Records that everything written so far was forced to disk.
    pub fn sync(&mut self)
        ensures
            final(self)@ == (WalManagerView { durable: old(self)@.offset, ..old(self)@ }),
            old(self)@.wf() ==> final(self)@.wf(),
    {
        self.durable = self.offset;
    }

    /// Whether the bytes of the active segment up to `end` are on disk.
    pub fn is_durable(&self, end: u64) -> (yes: bool)
        ensures
            yes == (end <= self@.durable),
    {
        end <= self.durable
    }

    /// Begins a rotation by hand: the active segment stops taking records
    /// until its successor is open.
    pub fn begin_rotation(&mut self) -> (next_seq: Option<u64>)
        requires
            old(self)@.wf(),
        ensures
            final(self)@.wf(),
            match next_seq {
                Some(n) => {
                    &&& old(self)@.state == SegmentState::Active
                    &&& old(self)@.seq < u64::MAX
                    &&& n == old(self)@.seq + 1
                    &&& final(self)@ == (WalManagerView {
                        state: SegmentState::Rotating,
                        ..old(self)@
                    })
                },
                None => {
                    &&& (old(self)@.state != SegmentState::Active || old(self)@.seq == u64::MAX)
                    &&& final(self)@ == old(self)@
                },
            },
    {
        match self.state {
            SegmentState::Active => {
                if self.seq == u64::MAX {
                    None
                } else {
                    self.state = SegmentState::Rotating;
                    Some(self.seq + 1)
                }
            },
            _ => None,
        }
    }

    /// Ends a rotation: the successor is open and empty.
    pub fn complete_rotation(&mut self)
        requires
            old(self)@.wf(),
            old(self)@.state == SegmentState::Rotating,
            old(self)@.seq < u64::MAX,
        ensures
            final(self)@.wf(),
            final(self)@ == (WalManagerView {
                state: SegmentState::Active,
                seq: (old(self)@.seq + 1) as u64,
                offset: 0,
                durable: 0,
                ..old(self)@
            }),
    {
        self.state = SegmentState::Active;
        self.seq = self.seq + 1;
        self.offset = 0;
        self.durable = 0;
    }

    /// Gives a rotation up because the successor could not be opened: the
    /// old segment stays the active one.
    pub fn abort_rotation(&mut self)
        ensures
            old(self)@.state == SegmentState::Rotating ==> final(self)@ == (WalManagerView {
                state: SegmentState::Active,
                ..old(self)@
            }),
            old(self)@.state != SegmentState::Rotating ==> final(self)@ == old(self)@,
            old(self)@.wf() ==> final(self)@.wf(),
    {
        match self.state {
            SegmentState::Rotating => {
                self.state = SegmentState::Active;
            },
            _ => {},
        }
    }

    /// Shuts the log down. A closed log takes no more records.
    pub fn close(&mut self)
        ensures
            final(self)@ == (WalManagerView { state: SegmentState::Closed, ..old(self)@ }),
            old(self)@.wf() ==> final(self)@.wf(),
    {
        self.state = SegmentState::Closed;
    }

    /// Cuts the active segment back to `len` bytes after a scan found a torn
    /// write there.
    pub fn truncated(&mut self, len: u64)
        requires
            len <= old(self)@.offset,
        ensures
            final(self)@ == (WalManagerView {
                offset: len,
                durable: if old(self)@.durable <= len {
                    old(self)@.durable
                } else {
                    len
                },
                ..old(self)@
            }),
            old(self)@.wf() ==> final(self)@.wf(),
    {
        self.offset = len;
        if self.durable > len {
            self.durable = len;
        }
    }

    /// Reads back the records of one segment. `data` holds the segment's
    /// bytes from `start_offset` on; `is_last` says that it is the newest
    /// segment. See [`scan_segment`].
    pub fn replay_from(&self, data: &[u8], start_offset: u64, is_last: bool) -> (r: Result<
        SegmentScan,
        WalError,
    >)
        requires
            start_offset + data@.len() <= u64::MAX,
        ensures
            r is Ok <==> (good_prefix_len(data@) == data@.len() || is_torn(
                data@.skip(good_prefix_len(data@) as int),
                is_last,
            )),
            r matches Ok(scan) ==> {
                &&& replayed_views(scan.entries@) == scan_records(data@, start_offset as nat)
                &&& scan.valid_len == good_prefix_len(data@)
                &&& scan.torn == (good_prefix_len(data@) < data@.len())
            },
            r matches Err(e) ==> e@ == (WalErrorView::ReplayError {
                offset: (start_offset + good_prefix_len(data@)) as u64,
                reason: stop_error(data@.skip(good_prefix_len(data@) as int)).message_text(),
            }),
    {
        scan_segment(data, start_offset, is_last)
    }
}

/// Offsets grow along the log: a record placed by `append` lies, in the
/// global numbering, at or after the end of everything written before it.
pub proof fn lemma_append_offsets_grow(before: WalManagerView, entry: WalEntryView)
    requires
        before.wf(),
        before.state == SegmentState::Active,
        before.append_error(entry) is None,
        before.offset <= before.config.max_file_size,
    ensures
        ({
            let after = before.after_append(entry);
            let max = before.config.max_file_size;
            let start = after.offset - entry.encoded_len();
            &&& global_offset_of(after.seq, start as u64, max) >= global_offset_of(
                before.seq,
                before.offset,
                max,
            )
            &&& after.offset <= max
            &&& after.wf()
        }),
{
    let max = before.config.max_file_size;
    if before.must_rotate(entry.encoded_len()) {
        assert((before.seq + 1) * max == before.seq * max + max) by (nonlinear_arith);
    }
}

/// Rotation at the limit: a record that ends exactly at `max_file_size`
/// still goes into the active segment, and the record after it opens the
/// next segment. Either way the record lies within one segment.
pub proof fn lemma_rotation_at_the_limit(
    before: WalManagerView,
    entry: WalEntryView,
    next: WalEntryView,
)
    requires
        before.wf(),
        before.append_error(entry) is None,
        before.offset + entry.encoded_len() == before.config.max_file_size,
        before.after_append(entry).append_error(next) is None,
    ensures
        !before.must_rotate(entry.encoded_len()),
        before.after_append(entry).seq == before.seq,
        before.after_append(entry).offset == before.config.max_file_size,
        before.after_append(entry).must_rotate(next.encoded_len()),
        before.after_append(entry).after_append(next).seq == before.seq + 1,
        before.after_append(entry).after_append(next).offset == next.encoded_len(),
{
    lemma_encode_len(next);
}

/// Under `EveryWrite` a record is on disk when its append is done: the
/// durable offset stands at the end of the record.
pub proof fn lemma_every_write_is_durable(before: WalManagerView, entry: WalEntryView)
    requires
        before.wf(),
        before.append_error(entry) is None,
        before.config.sync_policy == SyncPolicy::EveryWrite,
    ensures
        before.after_append(entry).durable == before.after_append(entry).offset,
{
}

} // verus!

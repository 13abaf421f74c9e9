//! The checkpoint coordinator.
//!
//! On every tick the coordinator asks for a snapshot. When the snapshot is
//! on disk it has the snapshot's log position written to a control file, and
//! only when that file is on disk too does it let go of the log segments
//! that lie wholly before the position. A failure at any step is dropped;
//! the next tick tries again.

use crate::wal::checksum::{crc32, crc32_ieee};
use crate::wal::segment::{name_views, parse_segment_seq, segment_seq};
use vstd::bytes::{
    spec_u32_from_le_bytes, spec_u32_to_le_bytes, spec_u64_from_le_bytes, spec_u64_to_le_bytes,
    u32_from_le_bytes, u32_to_le_bytes, u64_from_le_bytes, u64_to_le_bytes,
};
use vstd::prelude::*;
use vstd::slice::slice_subrange;

verus! {

/// A position in the log: a segment and an offset in it.
#[derive(Debug, Clone, Copy, PartialEq, Eq, Structural)]
pub struct LogPosition {
    pub seq: u64,
    pub offset: u64,
}

/// Where the coordinator stands.
#[derive(Debug, Clone, Copy, PartialEq, Eq, Structural)]
pub enum CheckpointState {
    /// Waiting for the next tick.
    Idle,
    /// A snapshot was asked for.
    Snapshotting,
    /// The control file is being written for this position.
    Recording(LogPosition),
    /// The coordinator was shut down.
    Stopped,
}

/// What happened outside.
#[derive(Debug, Clone, Copy, PartialEq, Eq, Structural)]
pub enum CheckpointEvent {
    /// The interval has passed.
    Tick,
    /// The snapshot is on disk; it is good from this position on.
    SnapshotTaken(LogPosition),
    SnapshotFailed,
    /// The control file is on disk.
    ControlDurable,
    ControlFailed,
}

/// What the caller has to do next.
#[derive(Debug, Clone, Copy, PartialEq, Eq, Structural)]
pub enum CheckpointAction {
    /// Nothing until the next tick.
    Wait,
    TakeSnapshot,
    /// Write the position to the control file, atomically, and force it to
    /// disk.
    WriteControl(LogPosition),
    /// Delete the segments numbered below `seq`.
    DeleteSegmentsBelow { seq: u64 },
}

/// The coordinator's step: the state and action that follow a state and an
/// event. Segments are let go only when the control file for a position is
/// on disk, and only those before the position's segment. An event that
/// does not fit the state changes nothing.
pub open spec fn checkpoint_step(state: CheckpointState, event: CheckpointEvent) -> (
    CheckpointState,
    CheckpointAction,
) {
    match (state, event) {
        (CheckpointState::Idle, CheckpointEvent::Tick) => (
            CheckpointState::Snapshotting,
            CheckpointAction::TakeSnapshot,
        ),
        (CheckpointState::Snapshotting, CheckpointEvent::SnapshotTaken(at)) => (
            CheckpointState::Recording(at),
            CheckpointAction::WriteControl(at),
        ),
        (CheckpointState::Snapshotting, CheckpointEvent::SnapshotFailed) => (
            CheckpointState::Idle,
            CheckpointAction::Wait,
        ),
        (CheckpointState::Recording(at), CheckpointEvent::ControlDurable) => (
            CheckpointState::Idle,
            CheckpointAction::DeleteSegmentsBelow { seq: at.seq },
        ),
        (CheckpointState::Recording(at), CheckpointEvent::ControlFailed) => (
            CheckpointState::Idle,
            CheckpointAction::Wait,
        ),
        _ => (state, CheckpointAction::Wait),
    }
}

pub struct CheckpointWorker {
    interval_sec: u64,
    state: CheckpointState,
    last: Option<LogPosition>,
}

impl CheckpointWorker {
    pub closed spec fn state(&self) -> CheckpointState {
        self.state
    }

    /// Seconds between two ticks.
    pub closed spec fn interval(&self) -> u64 {
        self.interval_sec
    }

    /// The position of the last checkpoint whose control file is on disk.
    pub closed spec fn last_checkpoint(&self) -> Option<LogPosition> {
        self.last
    }

    pub fn new(interval_sec: u64) -> (w: Self)
        ensures
            w.state() == CheckpointState::Idle,
            w.interval() == interval_sec,
            w.last_checkpoint() is None,
    {
        CheckpointWorker { interval_sec, state: CheckpointState::Idle, last: None }
    }

    pub fn interval_sec(&self) -> (secs: u64)
        ensures
            secs == self.interval(),
    {
        self.interval_sec
    }

    pub fn current_state(&self) -> (s: CheckpointState)
        ensures
            s == self.state(),
    {
        self.state
    }

    pub fn last_position(&self) -> (p: Option<LogPosition>)
        ensures
            p == self.last_checkpoint(),
    {
        self.last
    }

    /// Takes an event and says what to do.
    pub fn step(&mut self, event: CheckpointEvent) -> (action: CheckpointAction)
        ensures
            (final(self).state(), action) == checkpoint_step(old(self).state(), event),
            final(self).interval() == old(self).interval(),
            final(self).last_checkpoint() == match action {
                CheckpointAction::DeleteSegmentsBelow { seq } => match old(self).state() {
                    CheckpointState::Recording(at) => Some(at),
                    _ => old(self).last_checkpoint(),
                },
                _ => old(self).last_checkpoint(),
            },
    {
        match (self.state, event) {
            (CheckpointState::Idle, CheckpointEvent::Tick) => {
                self.state = CheckpointState::Snapshotting;
                CheckpointAction::TakeSnapshot
            },
            (CheckpointState::Snapshotting, CheckpointEvent::SnapshotTaken(at)) => {
                self.state = CheckpointState::Recording(at);
                CheckpointAction::WriteControl(at)
            },
            (CheckpointState::Snapshotting, CheckpointEvent::SnapshotFailed) => {
                self.state = CheckpointState::Idle;
                CheckpointAction::Wait
            },
            (CheckpointState::Recording(at), CheckpointEvent::ControlDurable) => {
                self.state = CheckpointState::Idle;
                self.last = Some(at);
                CheckpointAction::DeleteSegmentsBelow { seq: at.seq }
            },
            (CheckpointState::Recording(_), CheckpointEvent::ControlFailed) => {
                self.state = CheckpointState::Idle;
                CheckpointAction::Wait
            },
            _ => CheckpointAction::Wait,
        }
    }

    /// Stops the coordinator: from now on every event is answered with
    /// `Wait`.
    pub fn shutdown(&mut self)
        ensures
            final(self).state() == CheckpointState::Stopped,
            final(self).interval() == old(self).interval(),
            final(self).last_checkpoint() == old(self).last_checkpoint(),
    {
        self.state = CheckpointState::Stopped;
    }
}

/// Segments are only ever let go after the control file for their
/// checkpoint is on disk, and never the checkpoint's own segment or a later
/// one.
pub proof fn lemma_delete_only_after_control(state: CheckpointState, event: CheckpointEvent)
    ensures
        checkpoint_step(state, event).1 matches CheckpointAction::DeleteSegmentsBelow { seq } ==> {
            &&& event == CheckpointEvent::ControlDurable
            &&& state matches CheckpointState::Recording(at) && at.seq == seq
        },
        state == CheckpointState::Stopped ==> checkpoint_step(state, event) == (
            state,
            CheckpointAction::Wait,
        ),
{
}

/// The control file: the position's two numbers, then the CRC-32 of those
/// sixteen bytes, all little-endian.
pub open spec fn encode_control(at: LogPosition) -> Seq<u8> {
    let body = spec_u64_to_le_bytes(at.seq) + spec_u64_to_le_bytes(at.offset);
    body + spec_u32_to_le_bytes(crc32_ieee(body))
}

/// The position a control file holds, if the file is whole.
pub open spec fn decode_control(data: Seq<u8>) -> Option<LogPosition> {
    if data.len() == 20 && spec_u32_from_le_bytes(data.subrange(16, 20)) == crc32_ieee(
        data.subrange(0, 16),
    ) {
        Some(
            LogPosition {
                seq: spec_u64_from_le_bytes(data.subrange(0, 8)),
                offset: spec_u64_from_le_bytes(data.subrange(8, 16)),
            },
        )
    } else {
        None
    }
}

/// The bytes of the control file for a position.
pub fn control_bytes(at: LogPosition) -> (out: Vec<u8>)
    ensures
        out@ == encode_control(at),
{
    let mut out = u64_to_le_bytes(at.seq);
    let offset = u64_to_le_bytes(at.offset);
    out.extend_from_slice(offset.as_slice());
    let ghost body = out@;
    assert(body =~= spec_u64_to_le_bytes(at.seq) + spec_u64_to_le_bytes(at.offset));
    let sum = u32_to_le_bytes(crc32(out.as_slice()));
    out.extend_from_slice(sum.as_slice());
    out
}

/// Reads a control file. A file of another length or with a failing
/// checksum holds no position.
pub fn read_control(data: &[u8]) -> (r: Option<LogPosition>)
    ensures
        r == decode_control(data@),
{
    if data.len() != 20 {
        return None;
    }
    let stored: u32 = u32_from_le_bytes(slice_subrange(data, 16, 20));
    if stored != crc32(slice_subrange(data, 0, 16)) {
        return None;
    }
    Some(
        LogPosition {
            seq: u64_from_le_bytes(slice_subrange(data, 0, 8)),
            offset: u64_from_le_bytes(slice_subrange(data, 8, 16)),
        },
    )
}

/// A control file reads back as the position it was written for.
pub proof fn lemma_control_round_trip(at: LogPosition)
    ensures
        decode_control(encode_control(at)) == Some(at),
{
    vstd::bytes::lemma_auto_spec_u64_to_from_le_bytes();
    vstd::bytes::lemma_auto_spec_u32_to_from_le_bytes();
    let data = encode_control(at);
    let body = spec_u64_to_le_bytes(at.seq) + spec_u64_to_le_bytes(at.offset);
    assert(data.subrange(0, 16) =~= body);
    assert(data.subrange(0, 8) =~= spec_u64_to_le_bytes(at.seq));
    assert(data.subrange(8, 16) =~= spec_u64_to_le_bytes(at.offset));
    assert(data.subrange(16, 20) =~= spec_u32_to_le_bytes(crc32_ieee(body)));
}

/// Whether the file `name` is a segment that lies wholly before segment
/// `seq`.
pub open spec fn is_obsolete(name: Seq<char>, prefix: Seq<char>, seq: u64) -> bool {
    segment_seq(name, prefix) matches Some(s) && s < seq
}

/// The names among `names` that are obsolete, in order.
pub open spec fn obsolete_names(names: Seq<Seq<char>>, prefix: Seq<char>, seq: u64) -> Seq<
    Seq<char>,
>
    decreases names.len(),
{
    if names.len() == 0 {
        Seq::empty()
    } else if is_obsolete(names.last(), prefix, seq) {
        obsolete_names(names.drop_last(), prefix, seq).push(names.last())
    } else {
        obsolete_names(names.drop_last(), prefix, seq)
    }
}

/// Picks, among the files of the log directory, the segments that a
/// checkpoint in segment `seq` makes obsolete: those with a lower number.
/// Files that are not segments are never picked.
pub fn segments_to_delete(names: &Vec<String>, prefix: &str, seq: u64) -> (gone: Vec<String>)
    ensures
        name_views(gone@) == obsolete_names(name_views(names@), prefix@, seq),
{
    let mut gone: Vec<String> = Vec::new();
    let mut i: usize = 0;
    let ghost all = name_views(names@);
    assert(all.take(0) =~= Seq::<Seq<char>>::empty());
    assert(name_views(gone@) =~= Seq::<Seq<char>>::empty());
    while i < names.len()
        invariant
            i <= names@.len(),
            all == name_views(names@),
            name_views(gone@) == obsolete_names(all.take(i as int), prefix@, seq),
        decreases names@.len() - i,
    {
        proof {
            assert(all.take(i + 1).drop_last() =~= all.take(i as int));
            assert(all.take(i + 1).last() == names@[i as int]@);
        }
        let ghost before = name_views(gone@);
        match parse_segment_seq(names[i].as_str(), prefix) {
            Some(s) => {
                if s < seq {
                    gone.push(names[i].clone());
                    assert(name_views(gone@) =~= before.push(names@[i as int]@));
                }
            },
            None => {},
        }
        i = i + 1;
    }
    assert(all.take(i as int) =~= all);
    gone
}

} // verus!

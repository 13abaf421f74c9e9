use kvstore_plus_plus::wal::config::{SyncPolicy, WalConfig};
use kvstore_plus_plus::wal::entry::{OpType, WalEntry};
use kvstore_plus_plus::wal::error::WalError;
use kvstore_plus_plus::wal::manager::{SegmentState, WalManager};
use kvstore_plus_plus::wal::replay::{probe_record, scan_segment, RecordProbe};
use kvstore_plus_plus::wal::segment::{
    highest_segment_seq, parse_segment_seq, segment_file_name,
};

fn put(key: &str, value: &[u8], version: u64) -> WalEntry {
    WalEntry {
        timestamp: 100,
        key: key.to_string(),
        value: value.to_vec(),
        version,
        ttl: None,
        op_type: OpType::Put,
    }
}

fn log_of(records: &[WalEntry]) -> Vec<u8> {
    let mut out = Vec::new();
    for r in records {
        out.extend_from_slice(&r.serialize());
    }
    out
}

fn config(max: u64, policy: SyncPolicy) -> WalConfig {
    WalConfig {
        dir: "wal".to_string(),
        file_prefix: "wal_".to_string(),
        max_file_size: max,
        sync_policy: policy,
    }
}

#[test]
fn scan_reads_back_what_was_appended() {
    let data = log_of(&[put("a", b"1", 1), put("b", b"2", 1)]);
    let scan = scan_segment(&data, 1000, true).unwrap();
    assert_eq!(scan.entries.len(), 2);
    assert_eq!(scan.entries[0].offset, 1000);
    assert_eq!(scan.entries[0].entry.key, "a");
    assert_eq!(scan.entries[0].entry.value, b"1");
    assert_eq!(scan.entries[1].offset, 1047);
    assert_eq!(scan.entries[1].entry.key, "b");
    assert_eq!(scan.valid_len, data.len());
    assert!(!scan.torn);
}

#[test]
fn empty_segment_scans_clean() {
    let scan = scan_segment(&[], 0, false).unwrap();
    assert_eq!(scan.entries.len(), 0);
    assert_eq!(scan.valid_len, 0);
    assert!(!scan.torn);
}

#[test]
fn cut_off_record_at_the_end_of_the_newest_segment_is_torn() {
    let mut data = log_of(&[put("a", b"1", 1)]);
    let whole = data.len();
    let second = put("b", b"2", 1).serialize();
    data.extend_from_slice(&second[..20]);
    let scan = scan_segment(&data, 0, true).unwrap();
    assert_eq!(scan.entries.len(), 1);
    assert_eq!(scan.valid_len, whole);
    assert!(scan.torn);
    data.truncate(whole);
    data.extend_from_slice(&second[..46]);
    let scan = scan_segment(&data, 0, true).unwrap();
    assert_eq!(scan.valid_len, whole);
    assert!(scan.torn);
}

#[test]
fn cut_off_record_in_an_older_segment_is_corruption() {
    let mut data = log_of(&[put("a", b"1", 1)]);
    let second = put("b", b"2", 1).serialize();
    data.extend_from_slice(&second[..20]);
    match scan_segment(&data, 500, false) {
        Err(WalError::ReplayError { offset, reason }) => {
            assert_eq!(offset, 547);
            assert_eq!(reason, "Invalid WAL entry at offset 0: too short");
        }
        other => panic!("unexpected: {:?}", other.map(|s| s.valid_len)),
    }
}

#[test]
fn bad_checksum_on_the_last_record_is_torn() {
    let mut data = log_of(&[put("a", b"1", 1), put("b", b"2", 1)]);
    let last = data.len() - 1;
    data[last] ^= 0xFF;
    let scan = scan_segment(&data, 0, true).unwrap();
    assert_eq!(scan.entries.len(), 1);
    assert_eq!(scan.valid_len, 47);
    assert!(scan.torn);
}

#[test]
fn bad_checksum_before_the_end_is_corruption() {
    let mut data = log_of(&[put("k", b"v1", 1), put("b", b"2", 1)]);
    data[42] ^= 0x01;
    match scan_segment(&data, 0, true) {
        Err(WalError::ReplayError { offset, reason }) => {
            assert_eq!(offset, 0);
            assert!(reason.starts_with("Checksum mismatch at offset 0: expected "));
        }
        other => panic!("unexpected: {:?}", other.map(|s| s.valid_len)),
    }
}

#[test]
fn corrupting_the_only_record_of_an_older_segment_aborts_replay() {
    let mut data = log_of(&[put("k", b"v1", 1)]);
    data[41] ^= 0x01;
    assert!(matches!(
        scan_segment(&data, 0, false),
        Err(WalError::ReplayError { offset: 0, .. })
    ));
}

#[test]
fn probe_tells_short_from_damaged_from_whole() {
    let bytes = put("a", b"1", 1).serialize();
    assert_eq!(probe_record(&bytes), RecordProbe::Whole { len: 47 });
    assert_eq!(probe_record(&bytes[..46]), RecordProbe::Short);
    assert_eq!(probe_record(&bytes[..10]), RecordProbe::Short);
    let mut damaged = bytes.clone();
    damaged[43] ^= 1;
    assert_eq!(probe_record(&damaged), RecordProbe::BadChecksum { len: 47 });
}

#[test]
fn segment_names_carry_their_number() {
    assert_eq!(segment_file_name("wal_", 1), "wal_1");
    assert_eq!(segment_file_name("wal_", 120), "wal_120");
    assert_eq!(segment_file_name("", 18446744073709551615), "18446744073709551615");
    assert_eq!(parse_segment_seq("wal_120", "wal_"), Some(120));
    assert_eq!(parse_segment_seq("wal_007", "wal_"), Some(7));
    assert_eq!(parse_segment_seq("wal_", "wal_"), None);
    assert_eq!(parse_segment_seq("wal_12x", "wal_"), None);
    assert_eq!(parse_segment_seq("wal_+12", "wal_"), None);
    assert_eq!(parse_segment_seq("log_12", "wal_"), None);
    assert_eq!(parse_segment_seq("wa", "wal_"), None);
    assert_eq!(parse_segment_seq("wal_18446744073709551615", "wal_"), Some(u64::MAX));
    assert_eq!(parse_segment_seq("wal_18446744073709551616", "wal_"), None);
}

#[test]
fn highest_segment_is_found_among_other_files() {
    let names: Vec<String> = ["wal_2", "notes.txt", "wal_10", "wal_x", "wal_9"]
        .iter()
        .map(|s| s.to_string())
        .collect();
    assert_eq!(highest_segment_seq(&names, "wal_"), 10);
    assert_eq!(highest_segment_seq(&Vec::new(), "wal_"), 0);
    let none: Vec<String> = vec!["readme".to_string()];
    assert_eq!(highest_segment_seq(&none, "wal_"), 0);
}

#[test]
fn default_config_is_128_mib_every_100_ms() {
    let c = WalConfig::default();
    assert_eq!(c.dir, "data/wal");
    assert_eq!(c.file_prefix, "wal_");
    assert_eq!(c.max_file_size, 128 * 1024 * 1024);
    assert_eq!(c.sync_policy, SyncPolicy::EveryMs(100));
}

#[test]
fn manager_opens_the_highest_segment_or_the_first() {
    let mut m = WalManager::new(config(1000, SyncPolicy::Never));
    assert_eq!(m.state(), SegmentState::Opening);
    assert_eq!(m.open_next_file(&Vec::new()), 1);
    let names = vec!["wal_3".to_string(), "wal_1".to_string()];
    assert_eq!(m.open_next_file(&names), 3);
    m.opened(3, 40);
    assert_eq!(m.state(), SegmentState::Active);
    assert_eq!(m.current_seq(), 3);
    assert_eq!(m.current_offset(), 40);
    assert_eq!(m.durable_offset(), 40);
}

#[test]
fn append_before_open_is_refused() {
    let mut m = WalManager::new(config(1000, SyncPolicy::Never));
    assert!(matches!(m.append(&put("a", b"1", 1)), Err(WalError::Io(_))));
    assert_eq!(m.current_offset(), 0);
}

#[test]
fn append_advances_the_offset() {
    let mut m = WalManager::new(config(1000, SyncPolicy::Never));
    m.opened(1, 0);
    let a = m.append(&put("a", b"1", 1)).unwrap();
    assert_eq!((a.seq, a.offset, a.rotated, a.sync), (1, 0, false, false));
    assert_eq!(a.bytes, put("a", b"1", 1).serialize());
    let b = m.append(&put("b", b"2", 1)).unwrap();
    assert_eq!((b.seq, b.offset, b.rotated), (1, 47, false));
    assert_eq!(m.current_offset(), 94);
    assert_eq!(m.durable_offset(), 0);
    assert!(!m.is_durable(94));
    m.sync();
    assert_eq!(m.durable_offset(), 94);
    assert!(m.is_durable(94));
}

#[test]
fn every_write_asks_for_a_sync_and_counts_it() {
    let mut m = WalManager::new(config(1000, SyncPolicy::EveryWrite));
    m.opened(1, 0);
    let a = m.append(&put("a", b"1", 1)).unwrap();
    assert!(a.sync);
    assert_eq!(m.durable_offset(), 47);
    let mut every_ms = WalManager::new(config(1000, SyncPolicy::EveryMs(5)));
    every_ms.opened(1, 0);
    assert!(!every_ms.append(&put("a", b"1", 1)).unwrap().sync);
}

#[test]
fn record_that_fills_the_segment_exactly_does_not_rotate() {
    let mut m = WalManager::new(config(94, SyncPolicy::Never));
    m.opened(1, 0);
    assert!(!m.append(&put("a", b"1", 1)).unwrap().rotated);
    let second = m.append(&put("b", b"2", 1)).unwrap();
    assert!(!second.rotated);
    assert_eq!(m.current_offset(), 94);
    let third = m.append(&put("c", b"3", 1)).unwrap();
    assert!(third.rotated);
    assert_eq!((third.seq, third.offset), (2, 0));
    assert_eq!(m.current_seq(), 2);
    assert_eq!(m.current_offset(), 47);
}

#[test]
fn record_that_would_cross_the_limit_opens_the_next_segment() {
    let mut m = WalManager::new(config(93, SyncPolicy::Never));
    m.opened(1, 0);
    m.append(&put("a", b"1", 1)).unwrap();
    let second = m.append(&put("b", b"2", 1)).unwrap();
    assert!(second.rotated);
    assert_eq!((second.seq, second.offset), (2, 0));
}

#[test]
fn record_larger_than_a_segment_is_refused() {
    let mut m = WalManager::new(config(46, SyncPolicy::Never));
    m.opened(1, 0);
    match m.append(&put("a", b"1", 1)) {
        Err(WalError::InvalidEntry { offset, reason }) => {
            assert_eq!(offset, 0);
            assert_eq!(reason, "record larger than a segment");
        }
        other => panic!("unexpected: {:?}", other.map(|a| a.offset)),
    }
    assert_eq!(m.current_offset(), 0);
}

#[test]
fn malformed_record_is_refused() {
    let mut m = WalManager::new(config(1000, SyncPolicy::Never));
    m.opened(1, 0);
    let mut bad = put("a", b"1", 1);
    bad.ttl = Some(0);
    match m.append(&bad) {
        Err(WalError::InvalidEntry { reason, .. }) => assert_eq!(reason, "malformed record"),
        other => panic!("unexpected: {:?}", other.map(|a| a.offset)),
    }
}

#[test]
fn rotation_by_hand_walks_the_states() {
    let mut m = WalManager::new(config(1000, SyncPolicy::Never));
    assert_eq!(m.begin_rotation(), None);
    m.opened(1, 10);
    assert_eq!(m.begin_rotation(), Some(2));
    assert_eq!(m.state(), SegmentState::Rotating);
    assert!(m.append(&put("a", b"1", 1)).is_err());
    m.abort_rotation();
    assert_eq!(m.state(), SegmentState::Active);
    assert_eq!((m.current_seq(), m.current_offset()), (1, 10));
    assert_eq!(m.begin_rotation(), Some(2));
    m.complete_rotation();
    assert_eq!(m.state(), SegmentState::Active);
    assert_eq!((m.current_seq(), m.current_offset()), (2, 0));
    m.close();
    assert_eq!(m.state(), SegmentState::Closed);
    m.opened(5, 5);
    assert_eq!(m.state(), SegmentState::Closed);
    assert_eq!(m.current_seq(), 2);
}

#[test]
fn global_offsets_lay_segments_end_to_end() {
    let m = WalManager::new(config(1000, SyncPolicy::Never));
    assert_eq!(m.global_offset(1, 0), Some(1000));
    assert_eq!(m.global_offset(3, 47), Some(3047));
    assert_eq!(m.global_offset(u64::MAX, 1), None);
    assert_eq!(m.locate(3047), Some((3, 47)));
    assert_eq!(m.locate(999), Some((0, 999)));
    let flat = WalManager::new(config(0, SyncPolicy::Never));
    assert_eq!(flat.locate(5), None);
}

#[test]
fn truncation_after_a_torn_write_rewinds_the_offset() {
    let mut m = WalManager::new(config(1000, SyncPolicy::Never));
    m.opened(1, 67);
    m.truncated(47);
    assert_eq!(m.current_offset(), 47);
    assert_eq!(m.durable_offset(), 47);
}

#[test]
fn replay_from_scans_the_segment() {
    let m = WalManager::new(config(1000, SyncPolicy::Never));
    let data = log_of(&[put("a", b"1", 1)]);
    let scan = m.replay_from(&data, 47, true).unwrap();
    assert_eq!(scan.entries.len(), 1);
    assert_eq!(scan.entries[0].offset, 47);
}

#[test]
fn planning_an_append_changes_nothing_until_committed() {
    let mut m = WalManager::new(config(94, SyncPolicy::EveryWrite));
    m.opened(1, 47);
    let plan = m.plan_append(&put("a", b"1", 1)).unwrap();
    assert_eq!((plan.seq, plan.offset, plan.rotated, plan.sync), (1, 47, false, true));
    assert_eq!(m.current_offset(), 47);
    m.commit(&plan);
    assert_eq!(m.current_offset(), 94);
    assert_eq!(m.durable_offset(), 94);
    let next = m.plan_append(&put("b", b"2", 1)).unwrap();
    assert_eq!((next.seq, next.offset, next.rotated), (2, 0, true));
    assert_eq!(m.current_seq(), 1);
    m.commit(&next);
    assert_eq!((m.current_seq(), m.current_offset()), (2, 47));
}

#[test]
fn third_failure_in_a_row_is_persistent() {
    let mut m = WalManager::new(config(1000, SyncPolicy::Never));
    assert!(!m.io_failed());
    assert!(!m.io_failed());
    m.io_succeeded();
    assert!(!m.io_failed());
    assert!(!m.io_failed());
    assert!(m.io_failed());
    assert!(m.io_failed());
    m.io_succeeded();
    assert!(!m.io_failed());
}

use kvstore_plus_plus::background::checkpoint::{
    control_bytes, read_control, segments_to_delete, CheckpointAction, CheckpointEvent,
    CheckpointState, CheckpointWorker, LogPosition,
};
use kvstore_plus_plus::background::metrics::{MetricsSample, MetricsWorker};
use kvstore_plus_plus::background::replica::{
    encode_frame, frame_segment, hello_message, is_greeting, ok_message, parse_hello,
    read_greeting, GreetingStep, ReplicaSession, ReplicaStreamer,
};
use kvstore_plus_plus::background::s3_uploader::{latest_snapshot, S3Uploader};
use kvstore_plus_plus::background::types::WorkerError;
use kvstore_plus_plus::background::WorkerManager;
use kvstore_plus_plus::config::{BackgroundConfig, ReplicaConfig, S3Config};
use kvstore_plus_plus::storage::engine::StorageEngine;
use kvstore_plus_plus::storage::error::StorageError;
use kvstore_plus_plus::storage::types::StorageConfig;

fn engine() -> StorageEngine {
    StorageEngine::new(StorageConfig { num_shards: 4, snapshot_dir: String::new() })
}

fn names(list: &[&str]) -> Vec<String> {
    list.iter().map(|s| s.to_string()).collect()
}

#[test]
fn frame_is_length_then_record() {
    assert_eq!(encode_frame(b"abc"), vec![3, 0, 0, 0, 0, 0, 0, 0, b'a', b'b', b'c']);
    assert_eq!(encode_frame(b""), vec![0u8; 8]);
}

#[test]
fn follower_ends_up_with_the_primary_s_entry() {
    let mut primary = engine();
    let rec = primary.set_at("k", b"v".to_vec(), None, 10).unwrap();
    let stream = encode_frame(&rec.serialize());
    let mut follower = engine();
    let mut session = ReplicaSession::new(true, 1 << 20);
    let out = session.feed(&mut follower, &stream);
    assert_eq!(out.applied, 1);
    assert_eq!(out.replies, b"ACK");
    assert!(!out.close);
    let got = follower.get_at("k", 11).unwrap();
    let original = primary.get_at("k", 11).unwrap();
    assert_eq!(got.value, b"v");
    assert_eq!(got.version, original.version);
    assert_eq!(got.created_at, original.created_at);
}

#[test]
fn frames_may_arrive_in_pieces() {
    let mut primary = engine();
    let mut stream = Vec::new();
    stream.extend(encode_frame(&primary.set_at("a", b"1".to_vec(), None, 1).unwrap().serialize()));
    stream.extend(encode_frame(&primary.set_at("b", b"2".to_vec(), None, 2).unwrap().serialize()));
    stream.extend(encode_frame(&primary.del_at("a", None, 3).unwrap().serialize()));
    let mut follower = engine();
    let mut session = ReplicaSession::new(true, 1 << 20);
    let mut replies = Vec::new();
    let mut applied = 0;
    for chunk in stream.chunks(7) {
        let out = session.feed(&mut follower, chunk);
        assert!(!out.close);
        applied += out.applied;
        replies.extend(out.replies);
    }
    assert_eq!(applied, 3);
    assert_eq!(replies, b"ACKACKACK");
    assert!(follower.get_at("a", 4).is_err());
    assert_eq!(follower.get_at("b", 4).unwrap().value, b"2");
    assert!(!session.closed());
}

#[test]
fn async_follower_stays_silent() {
    let mut primary = engine();
    let stream = encode_frame(&primary.set_at("a", b"1".to_vec(), None, 1).unwrap().serialize());
    let mut follower = engine();
    let mut session = ReplicaSession::new(false, 1 << 20);
    let out = session.feed(&mut follower, &stream);
    assert_eq!(out.applied, 1);
    assert!(out.replies.is_empty());
}

#[test]
fn damaged_frame_ends_the_session_with_err() {
    let mut primary = engine();
    let good = encode_frame(&primary.set_at("a", b"1".to_vec(), None, 1).unwrap().serialize());
    let mut bad = encode_frame(&primary.set_at("b", b"2".to_vec(), None, 2).unwrap().serialize());
    let last = bad.len() - 1;
    bad[last] ^= 1;
    let mut stream = good.clone();
    stream.extend(bad);
    stream.extend(good);
    let mut follower = engine();
    let mut session = ReplicaSession::new(true, 1 << 20);
    let out = session.feed(&mut follower, &stream);
    assert_eq!(out.applied, 1);
    assert_eq!(out.replies, b"ACKERR");
    assert!(out.close);
    assert!(session.closed());
    assert!(follower.get_at("b", 3).is_err());
    let after = session.feed(&mut follower, &stream);
    assert_eq!(after.applied, 0);
    assert!(after.replies.is_empty());
    assert!(after.close);
}

#[test]
fn frame_longer_than_allowed_is_refused_at_once() {
    let mut follower = engine();
    let mut session = ReplicaSession::new(false, 100);
    let out = session.feed(&mut follower, &101u64.to_le_bytes());
    assert!(out.close);
    assert_eq!(out.replies, b"ERR");
}

#[test]
fn frame_with_bytes_behind_its_record_is_refused() {
    let mut primary = engine();
    let mut record = primary.set_at("a", b"1".to_vec(), None, 1).unwrap().serialize();
    record.push(0);
    let mut follower = engine();
    let mut session = ReplicaSession::new(true, 1 << 20);
    let out = session.feed(&mut follower, &encode_frame(&record));
    assert!(out.close);
    assert_eq!(out.replies, b"ERR");
    assert_eq!(follower.key_count(), Some(0));
}

#[test]
fn greeting_names_the_offset() {
    assert_eq!(hello_message(0), "HELLO\n0\n");
    assert_eq!(hello_message(4711), "HELLO\n4711\n");
    assert_eq!(parse_hello("HELLO\n4711\n"), Some(4711));
    assert_eq!(parse_hello(&hello_message(u64::MAX)), Some(u64::MAX));
    assert_eq!(parse_hello("HELLO\n4711"), None);
    assert_eq!(parse_hello("HELLO\n\n"), None);
    assert_eq!(parse_hello("HELLO 4711\n"), None);
    assert_eq!(parse_hello("HELLO\n47x\n"), None);
    assert_eq!(parse_hello(""), None);
    assert_eq!(ok_message(), b"OK\n");
}

#[test]
fn streamer_hands_out_sessions_in_its_mode() {
    let mut streamer = ReplicaStreamer::new("0.0.0.0:7000".to_string(), true);
    assert_eq!(streamer.bind_addr(), "0.0.0.0:7000");
    assert!(streamer.running());
    assert!(streamer.sync_mode());
    let mut primary = engine();
    let stream = encode_frame(&primary.set_at("a", b"1".to_vec(), None, 1).unwrap().serialize());
    let mut follower = engine();
    let mut session = streamer.session(1 << 20);
    assert_eq!(session.feed(&mut follower, &stream).replies, b"ACK");
    streamer.shutdown();
    assert!(!streamer.running());
}

#[test]
fn checkpoint_walks_snapshot_control_truncate() {
    let mut w = CheckpointWorker::new(60);
    assert_eq!(w.interval_sec(), 60);
    assert_eq!(w.current_state(), CheckpointState::Idle);
    assert_eq!(w.step(CheckpointEvent::ControlDurable), CheckpointAction::Wait);
    assert_eq!(w.step(CheckpointEvent::Tick), CheckpointAction::TakeSnapshot);
    assert_eq!(w.step(CheckpointEvent::Tick), CheckpointAction::Wait);
    let at = LogPosition { seq: 3, offset: 120 };
    assert_eq!(w.step(CheckpointEvent::SnapshotTaken(at)), CheckpointAction::WriteControl(at));
    assert_eq!(w.last_position(), None);
    assert_eq!(
        w.step(CheckpointEvent::ControlDurable),
        CheckpointAction::DeleteSegmentsBelow { seq: 3 }
    );
    assert_eq!(w.last_position(), Some(at));
    assert_eq!(w.current_state(), CheckpointState::Idle);
}

#[test]
fn failed_steps_wait_for_the_next_tick() {
    let mut w = CheckpointWorker::new(60);
    w.step(CheckpointEvent::Tick);
    assert_eq!(w.step(CheckpointEvent::SnapshotFailed), CheckpointAction::Wait);
    assert_eq!(w.current_state(), CheckpointState::Idle);
    w.step(CheckpointEvent::Tick);
    w.step(CheckpointEvent::SnapshotTaken(LogPosition { seq: 2, offset: 0 }));
    assert_eq!(w.step(CheckpointEvent::ControlFailed), CheckpointAction::Wait);
    assert_eq!(w.last_position(), None);
    w.shutdown();
    assert_eq!(w.step(CheckpointEvent::Tick), CheckpointAction::Wait);
    assert_eq!(w.current_state(), CheckpointState::Stopped);
}

#[test]
fn control_file_round_trips_and_detects_damage() {
    let at = LogPosition { seq: 3, offset: 1234 };
    let bytes = control_bytes(at);
    assert_eq!(
        bytes,
        vec![3, 0, 0, 0, 0, 0, 0, 0, 210, 4, 0, 0, 0, 0, 0, 0, 213, 170, 4, 117]
    );
    assert_eq!(read_control(&bytes), Some(at));
    let mut damaged = bytes.clone();
    damaged[8] ^= 1;
    assert_eq!(read_control(&damaged), None);
    assert_eq!(read_control(&bytes[..19]), None);
    assert_eq!(read_control(&[]), None);
}

#[test]
fn only_older_segments_are_let_go() {
    let all = names(&["wal_1", "wal_2", "snapshot_1.bin", "wal_3", "wal_10", "wal_x", "other_1"]);
    assert_eq!(segments_to_delete(&all, "wal_", 3), names(&["wal_1", "wal_2"]));
    assert_eq!(segments_to_delete(&all, "wal_", 1), Vec::<String>::new());
    assert_eq!(segments_to_delete(&all, "wal_", 11), names(&["wal_1", "wal_2", "wal_3", "wal_10"]));
}

#[test]
fn gauges_follow_the_store() {
    let mut e = engine();
    e.set_at("a", b"1".to_vec(), None, 1).unwrap();
    e.set_at("b", b"2".to_vec(), None, 1).unwrap();
    let mut w = MetricsWorker::new(1000);
    assert_eq!(w.interval_ms(), 1000);
    assert_eq!(
        w.sample(&e, 94),
        MetricsSample { wal_size: 94, key_count: 2, memory_usage: 200 }
    );
    assert_eq!(w.sample(&e, u64::MAX).wal_size, i64::MAX);
    w.shutdown();
    assert!(!w.running());
}

#[test]
fn newest_snapshot_is_the_last_by_name() {
    let all = names(&["snapshot_100.bin", "wal_1", "snapshot_200.bin", "snapshot_150.bin", ".bin"]);
    assert_eq!(latest_snapshot(&all), Some(2));
    assert_eq!(latest_snapshot(&names(&["wal_1", "a.txt", ".bin"])), None);
    assert_eq!(latest_snapshot(&names(&["snapshot_9.bin", "snapshot_10.bin"])), Some(0));
}

#[test]
fn uploader_hands_out_each_new_snapshot_once() {
    let mut u = S3Uploader::new("bucket".to_string(), true);
    assert_eq!(u.bucket(), "bucket");
    assert_eq!(u.next_upload(&names(&["wal_1"])), None);
    let first = names(&["snapshot_100.bin"]);
    assert_eq!(u.next_upload(&first), Some("snapshot_100.bin".to_string()));
    assert_eq!(u.next_upload(&first), None);
    let second = names(&["snapshot_100.bin", "snapshot_200.bin"]);
    assert_eq!(u.next_upload(&second), Some("snapshot_200.bin".to_string()));
    let mut quiet = S3Uploader::new("bucket".to_string(), false);
    assert_eq!(quiet.next_upload(&second), None);
    u.shutdown();
    assert!(!u.running());
}

#[test]
fn worker_manager_starts_what_is_configured_and_stops_all() {
    let plain = WorkerManager::new(&BackgroundConfig::default());
    assert!(plain.checkpoint.is_some() && plain.metrics.is_some());
    assert!(plain.s3_uploader.is_none() && plain.replica.is_none());
    let config = BackgroundConfig {
        checkpoint_interval_sec: 5,
        metrics_interval_ms: 7,
        s3: Some(S3Config {
            bucket: "b".to_string(),
            region: "r".to_string(),
            endpoint: None,
            upload_after_snapshot: true,
        }),
        replica: Some(ReplicaConfig {
            enabled: true,
            bind_addr: "127.0.0.1:1".to_string(),
            sync_mode: false,
        }),
    };
    let mut m = WorkerManager::new(&config);
    assert_eq!(m.checkpoint.as_ref().unwrap().interval_sec(), 5);
    assert_eq!(m.metrics.as_ref().unwrap().interval_ms(), 7);
    assert_eq!(m.s3_uploader.as_ref().unwrap().bucket(), "b");
    assert_eq!(m.replica.as_ref().unwrap().bind_addr(), "127.0.0.1:1");
    m.shutdown();
    assert_eq!(m.checkpoint.as_ref().unwrap().current_state(), CheckpointState::Stopped);
    assert!(!m.metrics.as_ref().unwrap().running());
    assert!(!m.s3_uploader.as_ref().unwrap().running());
    assert!(!m.replica.as_ref().unwrap().running());
    let off = BackgroundConfig {
        replica: Some(ReplicaConfig {
            enabled: false,
            bind_addr: String::new(),
            sync_mode: true,
        }),
        ..BackgroundConfig::default()
    };
    assert!(WorkerManager::new(&off).replica.is_none());
}

#[test]
fn worker_errors_read_as_sentences() {
    assert_eq!(
        WorkerError::Storage(StorageError::KeyNotFound("k".to_string())).message(),
        "Storage error: Key not found: k"
    );
    assert_eq!(WorkerError::S3("denied".to_string()).message(), "S3 error: denied");
    assert_eq!(WorkerError::Io("x".to_string()).message(), "I/O error: x");
    assert_eq!(WorkerError::Shutdown.message(), "Shutdown requested");
}

#[test]
fn log_is_framed_for_a_follower_that_catches_up() {
    let mut primary = engine();
    let one = primary.set_at("a", b"1".to_vec(), None, 1).unwrap().serialize();
    let two = primary.set_at("b", b"22".to_vec(), Some(3), 2).unwrap().serialize();
    let mut log = one.clone();
    log.extend_from_slice(&two);
    log.extend_from_slice(&two[..10]);
    let (frames, covered) = frame_segment(&log);
    let mut expected = encode_frame(&one);
    expected.extend(encode_frame(&two));
    assert_eq!(frames, expected);
    assert_eq!(covered, one.len() + two.len());
    let mut follower = engine();
    let mut session = ReplicaSession::new(false, 1 << 20);
    let out = session.feed(&mut follower, &frames);
    assert_eq!(out.applied, 2);
    assert!(!out.close);
    assert_eq!(follower.get_at("b", 3).unwrap().value, b"22");
    assert_eq!(frame_segment(&[]), (Vec::new(), 0));
}

#[test]
fn greeting_is_judged_as_it_arrives() {
    assert!(is_greeting(b"HELLO\n12\n"));
    assert!(is_greeting(b"HELLO"));
    assert!(!is_greeting(b"HELL"));
    assert!(!is_greeting(&[45, 0, 0, 0, 0, 0, 0, 0]));
    assert_eq!(read_greeting(b"HELLO"), GreetingStep::NeedMore);
    assert_eq!(read_greeting(b"HELLO\n12"), GreetingStep::NeedMore);
    assert_eq!(read_greeting(b"HELLO\n12\n"), GreetingStep::Offset(12));
    assert_eq!(read_greeting(b"HELLO\nxy\n"), GreetingStep::Bad);
    assert_eq!(read_greeting(b"HELLO\n12\n\n"), GreetingStep::Bad);
    assert_eq!(read_greeting(&[b'H'; 64]), GreetingStep::Bad);
    assert_eq!(read_greeting(&[b'H'; 63]), GreetingStep::NeedMore);
    assert_eq!(read_greeting(&[0xFF, b'\n', b'\n']), GreetingStep::Bad);
}

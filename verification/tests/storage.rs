use kvstore_plus_plus::config::{AppConfig, BackgroundConfig};
use kvstore_plus_plus::storage::engine::StorageEngine;
use kvstore_plus_plus::storage::error::StorageError;
use kvstore_plus_plus::storage::hash::hash_key;
use kvstore_plus_plus::storage::shard::Shard;
use kvstore_plus_plus::storage::ttl::TtlManager;
use kvstore_plus_plus::storage::types::{expiry, ttl_nanos, KvEntry, StorageConfig};
use kvstore_plus_plus::wal::config::{SyncPolicy, WalConfig};
use kvstore_plus_plus::wal::entry::{OpType, WalEntry};
use kvstore_plus_plus::wal::manager::WalManager;
use kvstore_plus_plus::wal::replay::scan_segment;

const SEC: u64 = 1_000_000_000;

fn engine(num_shards: usize) -> StorageEngine {
    StorageEngine::new(StorageConfig { num_shards, snapshot_dir: "test_snapshots".to_string() })
}

fn entry(value: &[u8], version: u64) -> KvEntry {
    KvEntry { value: value.to_vec(), version, created_at: 1, expires_at: None }
}

#[test]
fn test_storage_get_set_del() {
    let mut engine = engine(4);
    engine.set("hello", b"world".to_vec(), None).unwrap();
    let entry = engine.get("hello").unwrap();
    assert_eq!(entry.value, b"world");
    engine.del("hello", None).unwrap();
    let result = engine.get("hello");
    assert!(matches!(result.unwrap_err(), StorageError::KeyNotFound(_)));
}

#[test]
fn test_storage_ttl_expiry() {
    let mut engine = engine(4);
    let now = 1_700_000_000 * SEC;
    engine.set_at("temp", b"expiring".to_vec(), Some(1), now).unwrap();
    assert!(engine.get_at("temp", now).is_ok());
    let result = engine.get_at("temp", now + 2 * SEC);
    assert!(matches!(result.unwrap_err(), StorageError::KeyNotFound(_)));
}

#[test]
fn test_storage_sharding() {
    let mut engine = engine(4);
    for i in 0..100 {
        let key = format!("key_{}", i);
        engine.set(&key, format!("value_{}", i).into_bytes(), None).unwrap();
    }
    for i in 0..100 {
        let key = format!("key_{}", i);
        let entry = engine.get(&key).unwrap();
        assert_eq!(entry.value, format!("value_{}", i).into_bytes());
    }
    assert_eq!(engine.key_count(), Some(100));
    assert_eq!(engine.num_shards(), 4);
}

#[test]
fn test_full_system_integration() {
    let config = AppConfig {
        storage: StorageConfig { num_shards: 4, snapshot_dir: "data/snapshots".to_string() },
        wal: WalConfig {
            dir: "data/wal".to_string(),
            file_prefix: "wal_".to_string(),
            max_file_size: 1024 * 1024,
            sync_policy: SyncPolicy::Never,
        },
        background: BackgroundConfig {
            checkpoint_interval_sec: 60,
            metrics_interval_ms: 1000,
            s3: None,
            replica: None,
        },
    };
    assert!(config.validate());
    let mut wal = WalManager::new(config.wal.clone());
    wal.opened(1, 0);
    let mut engine = StorageEngine::new(config.storage.clone());
    let record = engine.set_at("integration_test", b"success".to_vec(), None, 5).unwrap();
    wal.append(&record).unwrap();
    let entry = engine.get("integration_test").unwrap();
    assert_eq!(entry.value, b"success");
    let record = engine.del_at("integration_test", None, 6).unwrap();
    wal.append(&record).unwrap();
    assert!(engine.get("integration_test").is_err());
}

#[test]
fn set_then_get_gives_version_one() {
    let mut engine = engine(4);
    let rec = engine.set_at("hello", b"world".to_vec(), None, 10).unwrap();
    assert_eq!(rec.version, 1);
    assert_eq!(rec.op_type, OpType::Put);
    assert_eq!(rec.timestamp, 10);
    assert_eq!(rec.ttl, None);
    let got = engine.get_at("hello", 11).unwrap();
    assert_eq!(got.value, b"world");
    assert_eq!(got.version, 1);
    assert_eq!(got.created_at, 10);
    assert_eq!(got.expires_at, None);
}

#[test]
fn overwrite_counts_the_version_up() {
    let mut engine = engine(4);
    engine.set_at("k", b"v1".to_vec(), None, 10).unwrap();
    let rec = engine.set_at("k", b"v2".to_vec(), None, 11).unwrap();
    assert_eq!(rec.version, 2);
    let got = engine.get_at("k", 12).unwrap();
    assert_eq!(got.value, b"v2");
    assert_eq!(got.version, 2);
}

#[test]
fn overwriting_an_expired_entry_starts_at_version_one() {
    let mut engine = engine(4);
    engine.set_at("k", b"v1".to_vec(), Some(1), 10).unwrap();
    engine.set_at("k", b"v2".to_vec(), Some(1), 11).unwrap();
    let rec = engine.set_at("k", b"v3".to_vec(), None, 11 + 2 * SEC).unwrap();
    assert_eq!(rec.version, 1);
}

#[test]
fn version_counter_at_its_end_refuses_the_write() {
    let mut engine = engine(4);
    let rec = WalEntry {
        timestamp: 1,
        key: "k".to_string(),
        value: b"v".to_vec(),
        version: u64::MAX,
        ttl: None,
        op_type: OpType::Put,
    };
    engine.apply_wal_entry(&rec).unwrap();
    match engine.set_at("k", b"w".to_vec(), None, 2) {
        Err(StorageError::Concurrency(msg)) => assert_eq!(msg, "version counter exhausted"),
        other => panic!("unexpected: {:?}", other.map(|r| r.version)),
    }
    assert_eq!(engine.get_at("k", 3).unwrap().value, b"v");
}

#[test]
fn key_longer_than_65535_bytes_is_refused() {
    let mut engine = engine(4);
    let long = "k".repeat(65536);
    match engine.set_at(&long, b"v".to_vec(), None, 2) {
        Err(StorageError::Serialization(msg)) => assert_eq!(msg, "key longer than 65535 bytes"),
        other => panic!("unexpected: {:?}", other.map(|r| r.version)),
    }
    assert_eq!(engine.key_count(), Some(0));
    let fits = "k".repeat(65535);
    assert!(engine.set_at(&fits, b"v".to_vec(), None, 2).is_ok());
}

#[test]
fn empty_value_is_a_value() {
    let mut engine = engine(4);
    engine.set_at("empty", Vec::new(), None, 10).unwrap();
    let got = engine.get_at("empty", 11).unwrap();
    assert!(got.value.is_empty());
    assert_eq!(got.version, 1);
    assert!(engine.exists_at("empty", 11));
}

#[test]
fn zero_ttl_means_no_expiry() {
    let mut engine = engine(4);
    let rec = engine.set_at("k", b"v".to_vec(), Some(0), 10).unwrap();
    assert_eq!(rec.ttl, None);
    assert_eq!(engine.get_at("k", u64::MAX).unwrap().expires_at, None);
    assert_eq!(engine.ttl_manager().len(), 0);
    assert_eq!(KvEntry::new_at(b"v".to_vec(), Some(0), 10).expires_at, None);
}

#[test]
fn ttl_is_counted_in_nanoseconds_from_the_write() {
    let mut engine = engine(4);
    let rec = engine.set_at("k", b"v".to_vec(), Some(3), 10).unwrap();
    assert_eq!(rec.ttl, Some(3 * SEC));
    let got = engine.get_at("k", 10 + 3 * SEC).unwrap();
    assert_eq!(got.expires_at, Some(10 + 3 * SEC));
    assert!(engine.get_at("k", 10 + 3 * SEC + 1).is_err());
    assert!(!engine.exists_at("k", 10 + 3 * SEC + 1));
    assert_eq!(engine.ttl_manager().len(), 1);
}

#[test]
fn expiry_helpers_guard_the_range_of_the_clock() {
    assert_eq!(ttl_nanos(Some(2)), Some(2 * SEC));
    assert_eq!(ttl_nanos(Some(u64::MAX)), None);
    assert_eq!(ttl_nanos(None), None);
    assert_eq!(expiry(5, Some(7)), Some(12));
    assert_eq!(expiry(5, Some(0)), None);
    assert_eq!(expiry(u64::MAX, Some(1)), None);
    assert_eq!(expiry(5, None), None);
    assert_eq!(KvEntry::new_at(Vec::new(), Some(u64::MAX), 5).expires_at, None);
}

#[test]
fn new_entry_is_stamped_by_the_clock() {
    let e = KvEntry::new(b"v".to_vec(), Some(60));
    assert_eq!(e.version, 1);
    assert!(e.created_at > 1_000_000_000 * SEC);
    assert_eq!(e.expires_at, Some(e.created_at + 60 * SEC));
    assert!(!e.is_expired());
    let old = KvEntry { value: Vec::new(), version: 1, created_at: 1, expires_at: Some(2) };
    assert!(old.is_expired());
    assert!(old.is_expired_at(3));
    assert!(!old.is_expired_at(2));
    assert!(!KvEntry::new(Vec::new(), None).is_expired());
}

#[test]
fn delete_checks_the_expected_version() {
    let mut engine = engine(4);
    engine.set_at("k", b"v1".to_vec(), None, 10).unwrap();
    engine.set_at("k", b"v2".to_vec(), None, 11).unwrap();
    match engine.del_at("k", Some(1), 12) {
        Err(StorageError::CasFailed { key, expected, got }) => {
            assert_eq!(key, "k");
            assert_eq!(expected, 1);
            assert_eq!(got, 2);
        }
        other => panic!("unexpected: {:?}", other.map(|r| r.version)),
    }
    assert!(engine.exists_at("k", 12));
    let rec = engine.del_at("k", Some(2), 12).unwrap();
    assert_eq!(rec.op_type, OpType::Del);
    assert_eq!(rec.version, 2);
    assert!(rec.value.is_empty());
    assert!(rec.is_valid());
    assert!(!engine.exists_at("k", 12));
}

#[test]
fn delete_of_a_missing_or_expired_key_is_not_found() {
    let mut engine = engine(4);
    match engine.del_at("nope", None, 1) {
        Err(StorageError::KeyNotFound(k)) => assert_eq!(k, "nope"),
        other => panic!("unexpected: {:?}", other.map(|r| r.version)),
    }
    engine.set_at("temp", b"x".to_vec(), Some(1), 10).unwrap();
    assert!(matches!(
        engine.del_at("temp", None, 10 + 2 * SEC),
        Err(StorageError::KeyNotFound(_))
    ));
    assert_eq!(engine.key_count(), Some(1));
}

#[test]
fn crash_and_replay_bring_the_state_back() {
    let mut engine = engine(4);
    let mut log = Vec::new();
    log.extend_from_slice(&engine.set_at("a", b"1".to_vec(), None, 10).unwrap().serialize());
    log.extend_from_slice(&engine.set_at("b", b"2".to_vec(), Some(9), 11).unwrap().serialize());
    log.extend_from_slice(&engine.set_at("a", b"3".to_vec(), None, 12).unwrap().serialize());
    log.extend_from_slice(&engine.del_at("b", None, 13).unwrap().serialize());
    log.extend_from_slice(&engine.set_at("c", b"4".to_vec(), Some(5), 14).unwrap().serialize());
    let scan = scan_segment(&log, 0, true).unwrap();
    let mut restarted = kvstore_plus_plus::storage::engine::StorageEngine::new(StorageConfig {
        num_shards: 4,
        snapshot_dir: String::new(),
    });
    restarted.replay(&scan.entries);
    let a = restarted.get_at("a", 20).unwrap();
    assert_eq!((a.value.clone(), a.version, a.created_at), (b"3".to_vec(), 2, 12));
    assert!(restarted.get_at("b", 20).is_err());
    let c = restarted.get_at("c", 20).unwrap();
    assert_eq!(c.expires_at, Some(14 + 5 * SEC));
    assert_eq!(restarted.key_count(), engine.key_count());
    restarted.replay(&scan.entries);
    assert_eq!(restarted.get_at("a", 20).unwrap().version, 2);
    assert!(restarted.get_at("b", 20).is_err());
    assert_eq!(restarted.key_count(), Some(2));
}

#[test]
fn two_writes_survive_a_restart() {
    let mut engine = engine(4);
    let mut log = Vec::new();
    log.extend_from_slice(&engine.set_at("a", b"1".to_vec(), None, 1).unwrap().serialize());
    log.extend_from_slice(&engine.set_at("b", b"2".to_vec(), None, 2).unwrap().serialize());
    let scan = scan_segment(&log, 0, true).unwrap();
    let mut restarted = StorageEngine::new(StorageConfig {
        num_shards: 4,
        snapshot_dir: String::new(),
    });
    restarted.replay(&scan.entries);
    assert_eq!(restarted.get_at("a", 3).unwrap().value, b"1");
    assert_eq!(restarted.get_at("b", 3).unwrap().value, b"2");
}

#[test]
fn applying_a_record_takes_over_its_version_and_times() {
    let mut engine = engine(4);
    let rec = WalEntry {
        timestamp: 50,
        key: "k".to_string(),
        value: b"v".to_vec(),
        version: 7,
        ttl: Some(25),
        op_type: OpType::Cas,
    };
    engine.apply_wal_entry(&rec).unwrap();
    let got = engine.get_at("k", 60).unwrap();
    assert_eq!((got.version, got.created_at, got.expires_at), (7, 50, Some(75)));
    let del = WalEntry {
        timestamp: 51,
        key: "k".to_string(),
        value: Vec::new(),
        version: 7,
        ttl: None,
        op_type: OpType::Del,
    };
    engine.apply_wal_entry(&del).unwrap();
    engine.apply_wal_entry(&del).unwrap();
    assert!(!engine.exists_at("k", 60));
}

#[test]
fn sweep_removes_what_is_due_and_only_that() {
    let mut engine = engine(4);
    engine.set_at("a", b"1".to_vec(), Some(1), 0).unwrap();
    engine.set_at("b", b"2".to_vec(), Some(5), 0).unwrap();
    engine.set_at("c", b"3".to_vec(), Some(1), 0).unwrap();
    engine.set_at("c", b"4".to_vec(), None, 1).unwrap();
    assert_eq!(engine.ttl_manager().len(), 3);
    let records = engine.sweep_at(2 * SEC);
    assert_eq!(records.len(), 1);
    assert_eq!(records[0].key, "a");
    assert_eq!(records[0].op_type, OpType::Del);
    assert_eq!(records[0].timestamp, 2 * SEC);
    assert_eq!(records[0].version, 1);
    assert_eq!(engine.key_count(), Some(2));
    assert_eq!(engine.get_at("c", 2 * SEC).unwrap().value, b"4");
    assert_eq!(engine.ttl_manager().len(), 1);
    assert_eq!(engine.sweep_at(2 * SEC).len(), 0);
    let later = engine.sweep_at(5 * SEC);
    assert_eq!(later.len(), 1);
    assert_eq!(later[0].key, "b");
    assert_eq!(engine.ttl_manager().len(), 0);
}

#[test]
fn sweep_keeps_an_entry_whose_expiry_was_moved() {
    let mut engine = engine(4);
    engine.set_at("k", b"1".to_vec(), Some(1), 0).unwrap();
    engine.set_at("k", b"2".to_vec(), Some(10), 0).unwrap();
    assert_eq!(engine.sweep_at(2 * SEC).len(), 0);
    assert_eq!(engine.get_at("k", 2 * SEC).unwrap().value, b"2");
    assert_eq!(engine.ttl_manager().len(), 1);
}

#[test]
fn ttl_queue_hands_out_the_earliest_first() {
    let mut q = TtlManager::new();
    q.add("late".to_string(), 30);
    q.add("early".to_string(), 10);
    q.add("mid".to_string(), 20);
    q.add("early2".to_string(), 10);
    assert_eq!(q.len(), 4);
    let due = q.pop_expired(20);
    let keys: Vec<&str> = due.iter().map(|e| e.key.as_str()).collect();
    assert_eq!(keys, vec!["early", "early2", "mid"]);
    assert_eq!(q.len(), 1);
    assert_eq!(q.pop_expired(29).len(), 0);
    assert_eq!(q.pop_expired(30)[0].key, "late");
}

#[test]
fn shard_keeps_one_entry_per_key() {
    let mut shard = Shard::new();
    assert_eq!(shard.len(), 0);
    assert!(shard.set("a".to_string(), entry(b"1", 1)).is_none());
    assert!(shard.set("b".to_string(), entry(b"2", 1)).is_none());
    let old = shard.set("a".to_string(), entry(b"3", 2)).unwrap();
    assert_eq!(old.value, b"1");
    assert_eq!(shard.len(), 2);
    assert_eq!(shard.get("a").unwrap().value, b"3");
    assert!(shard.get("A").is_none());
    assert!(shard.exists_key("b"));
    assert!(!shard.exists_key("c"));
    assert_eq!(shard.key_at(0), "a");
    assert_eq!(shard.entry_at(1).value, b"2");
    let copy = shard.snapshot();
    let gone = shard.del("a").unwrap();
    assert_eq!(gone.version, 2);
    assert!(shard.del("a").is_none());
    assert_eq!(shard.len(), 1);
    assert_eq!(copy.len(), 2);
    assert_eq!(copy.get("a").unwrap().value, b"3");
}

#[test]
fn keys_hash_the_same_everywhere() {
    assert_eq!(hash_key(""), 0);
    assert_eq!(hash_key("a"), 3555066485);
    assert_eq!(hash_key("hello"), 1205749901);
    assert_eq!(hash_key("key_0"), 1844679576);
    assert_ne!(hash_key("ab"), hash_key("ba"));
}

#[test]
fn keys_land_in_the_shard_of_their_hash() {
    let mut engine = engine(4);
    engine.set_at("key_0", b"x".to_vec(), None, 1).unwrap();
    engine.set_at("hello", b"y".to_vec(), None, 1).unwrap();
    let state = engine.snapshot();
    assert_eq!(state.len(), 4);
    assert_eq!(state[0].len(), 1);
    assert_eq!(state[0].key_at(0), "key_0");
    assert_eq!(state[1].len(), 1);
    assert_eq!(state[1].key_at(0), "hello");
    assert_eq!(state[2].len() + state[3].len(), 0);
}

#[test]
fn storage_config_wants_a_power_of_two() {
    let d = StorageConfig::default();
    assert_eq!(d.num_shards, 256);
    assert_eq!(d.snapshot_dir, "data/snapshots");
    assert!(d.is_valid());
    for n in [1usize, 2, 4, 1024] {
        assert!(StorageConfig { num_shards: n, snapshot_dir: String::new() }.is_valid());
    }
    for n in [0usize, 3, 6, 1000] {
        assert!(!StorageConfig { num_shards: n, snapshot_dir: String::new() }.is_valid());
    }
}

#[test]
fn storage_errors_read_as_sentences() {
    assert_eq!(StorageError::KeyNotFound("k".to_string()).message(), "Key not found: k");
    assert_eq!(
        StorageError::CasFailed { key: "k".to_string(), expected: 1, got: 2 }.message(),
        "CAS failed: version mismatch for key k (expected 1, got 2)"
    );
    assert_eq!(StorageError::Io("x".to_string()).message(), "I/O error: x");
    assert_eq!(StorageError::Serialization("x".to_string()).message(), "Serialization error: x");
    assert_eq!(StorageError::Concurrency("x".to_string()).message(), "Concurrency error: x");
}

#[test]
fn read_only_engine_refuses_mutations_and_still_reads() {
    let mut engine = engine(4);
    engine.set_at("k", b"v".to_vec(), Some(1), 0).unwrap();
    assert!(!engine.read_only());
    engine.set_read_only(true);
    assert!(engine.read_only());
    match engine.set_at("k", b"w".to_vec(), None, 1) {
        Err(StorageError::Io(msg)) => assert_eq!(msg, "engine is read-only"),
        other => panic!("unexpected: {:?}", other.map(|r| r.version)),
    }
    match engine.del_at("k", None, 1) {
        Err(StorageError::Io(msg)) => assert_eq!(msg, "engine is read-only"),
        other => panic!("unexpected: {:?}", other.map(|r| r.version)),
    }
    assert!(engine.sweep_at(5 * SEC).is_empty());
    assert_eq!(engine.ttl_manager().len(), 1);
    assert_eq!(engine.get_at("k", 1).unwrap().value, b"v");
    engine.set_read_only(false);
    assert_eq!(engine.sweep_at(5 * SEC).len(), 1);
    assert!(engine.set_at("k", b"w".to_vec(), None, 6 * SEC).is_ok());
}

#[test]
fn expiry_queue_can_be_built_anew_from_the_entries() {
    let mut engine = engine(4);
    engine.set_at("a", b"1".to_vec(), Some(1), 0).unwrap();
    engine.set_at("a", b"2".to_vec(), Some(2), 0).unwrap();
    engine.set_at("b", b"3".to_vec(), None, 0).unwrap();
    engine.set_at("c", b"4".to_vec(), Some(9), 0).unwrap();
    engine.del_at("c", None, 1).unwrap();
    assert_eq!(engine.ttl_manager().len(), 3);
    engine.rebuild_ttl_queue();
    assert_eq!(engine.ttl_manager().len(), 1);
    let records = engine.sweep_at(3 * SEC);
    assert_eq!(records.len(), 1);
    assert_eq!(records[0].key, "a");
    assert_eq!(records[0].version, 2);
}

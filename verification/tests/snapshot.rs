use kvstore_plus_plus::storage::engine::StorageEngine;
use kvstore_plus_plus::storage::error::StorageError;
use kvstore_plus_plus::storage::snapshot::{decode_state, encode_state, SnapshotManager};
use kvstore_plus_plus::storage::types::StorageConfig;

fn engine(num_shards: usize) -> StorageEngine {
    StorageEngine::new(StorageConfig { num_shards, snapshot_dir: "snaps".to_string() })
}

fn filled() -> StorageEngine {
    let mut e = engine(4);
    e.set_at("key_0", b"x".to_vec(), None, 3).unwrap();
    e.set_at("hello", b"world".to_vec(), Some(2), 5).unwrap();
    e.set_at("hello", b"again".to_vec(), Some(2), 6).unwrap();
    e.set_at("", Vec::new(), None, 7).unwrap();
    e
}

fn message(r: Result<u64, StorageError>) -> String {
    match r {
        Err(StorageError::Serialization(m)) => m,
        Err(other) => panic!("unexpected error: {:?}", other),
        Ok(o) => panic!("unexpected success: {}", o),
    }
}

#[test]
fn empty_engine_snapshot_is_header_and_counts() {
    let mgr = SnapshotManager::new("snaps".to_string());
    let (name, bytes) = mgr.create_snapshot(&engine(2), 77, 1700000000).unwrap();
    assert_eq!(name, "snapshot_1700000000.bin");
    let mut expected = vec![0x4B, 0x56, 0x53, 0x53, 1, 0, 0, 0, 2, 0, 0, 0, 77, 0, 0, 0, 0, 0, 0, 0];
    expected.extend_from_slice(&[0u8; 16]);
    assert_eq!(bytes, expected);
    assert_eq!(mgr.snapshot_dir(), "snaps");
    assert_eq!(mgr.file_name(5), "snapshot_5.bin");
    assert_eq!(mgr.temp_file_name(5), "snapshot_5.bin.tmp");
}

#[test]
fn entry_layout_matches_the_format() {
    let mut e = engine(1);
    e.set_at("k", b"vv".to_vec(), Some(1), 2).unwrap();
    let bytes = encode_state(&e.snapshot(), 0).unwrap();
    let mut expected = vec![0x4B, 0x56, 0x53, 0x53, 1, 0, 0, 0, 1, 0, 0, 0];
    expected.extend_from_slice(&0u64.to_le_bytes());
    expected.extend_from_slice(&1u64.to_le_bytes());
    expected.extend_from_slice(&1u64.to_le_bytes());
    expected.push(b'k');
    expected.extend_from_slice(&2u64.to_le_bytes());
    expected.extend_from_slice(b"vv");
    expected.extend_from_slice(&1u64.to_le_bytes());
    expected.extend_from_slice(&2u64.to_le_bytes());
    expected.push(1);
    expected.extend_from_slice(&1_000_000_002u64.to_le_bytes());
    assert_eq!(bytes, expected);
}

#[test]
fn snapshot_round_trips_into_another_engine() {
    let source = filled();
    let mgr = SnapshotManager::new("snaps".to_string());
    let (_, bytes) = mgr.create_snapshot(&source, 4242, 1).unwrap();
    let mut target = engine(4);
    target.set_at("stale", b"gone".to_vec(), None, 1).unwrap();
    assert_eq!(mgr.load_snapshot(&mut target, &bytes).unwrap(), 4242);
    assert!(target.get_at("stale", 8).is_err());
    let hello = target.get_at("hello", 8).unwrap();
    assert_eq!(hello.value, b"again");
    assert_eq!(hello.version, 2);
    assert_eq!(hello.created_at, 6);
    assert_eq!(hello.expires_at, Some(6 + 2_000_000_000));
    assert_eq!(target.get_at("key_0", 8).unwrap().value, b"x");
    assert!(target.get_at("", 8).unwrap().value.is_empty());
    assert_eq!(target.key_count(), Some(3));
    assert_eq!(target.ttl_manager().len(), 1);
    let swept = target.sweep_at(6 + 3_000_000_000);
    assert_eq!(swept.len(), 1);
    assert_eq!(swept[0].key, "hello");
    assert_eq!(target.key_count(), Some(2));
    let mut target = engine(4);
    mgr.load_snapshot(&mut target, &bytes).unwrap();
    let again = mgr.create_snapshot(&target, 4242, 1).unwrap().1;
    assert_eq!(again, bytes);
}

#[test]
fn decode_gives_back_every_shard() {
    let bytes = encode_state(&filled().snapshot(), 9).unwrap();
    let (offset, state) = decode_state(&bytes, 4).unwrap();
    assert_eq!(offset, 9);
    assert_eq!(state.len(), 4);
    let total: usize = state.iter().map(|s| s.len()).sum();
    assert_eq!(total, 3);
}

#[test]
fn bad_magic_is_refused() {
    let mgr = SnapshotManager::new(String::new());
    let mut bytes = mgr.create_snapshot(&filled(), 1, 1).unwrap().1;
    bytes[0] = b'X';
    let mut target = filled();
    assert_eq!(message(mgr.load_snapshot(&mut target, &bytes)), "not a snapshot: bad magic");
    assert_eq!(target.key_count(), Some(3));
}

#[test]
fn other_version_is_refused() {
    let mgr = SnapshotManager::new(String::new());
    let mut bytes = mgr.create_snapshot(&filled(), 1, 1).unwrap().1;
    bytes[4] = 2;
    let mut target = engine(4);
    assert_eq!(message(mgr.load_snapshot(&mut target, &bytes)), "unsupported snapshot version");
}

#[test]
fn other_shard_count_is_refused() {
    let mgr = SnapshotManager::new(String::new());
    let bytes = mgr.create_snapshot(&filled(), 1, 1).unwrap().1;
    let mut target = engine(8);
    target.set_at("mine", b"1".to_vec(), None, 1).unwrap();
    assert_eq!(
        message(mgr.load_snapshot(&mut target, &bytes)),
        "snapshot was taken with another number of shards"
    );
    assert_eq!(target.get_at("mine", 2).unwrap().value, b"1");
}

#[test]
fn cut_or_padded_snapshot_is_refused() {
    let mgr = SnapshotManager::new(String::new());
    let bytes = mgr.create_snapshot(&filled(), 1, 1).unwrap().1;
    let mut target = engine(4);
    assert_eq!(
        message(mgr.load_snapshot(&mut target, &bytes[..10])),
        "snapshot header is cut short"
    );
    assert_eq!(
        message(mgr.load_snapshot(&mut target, &bytes[..bytes.len() - 1])),
        "malformed snapshot body"
    );
    let mut padded = bytes.clone();
    padded.push(0);
    assert_eq!(message(mgr.load_snapshot(&mut target, &padded)), "malformed snapshot body");
    assert_eq!(target.key_count(), Some(0));
}

#[test]
fn repeated_key_in_a_shard_is_refused() {
    let mut e = engine(1);
    e.set_at("a", b"1".to_vec(), None, 1).unwrap();
    let one = encode_state(&e.snapshot(), 0).unwrap();
    let entry = one[28..].to_vec();
    let mut twice = one[..20].to_vec();
    twice.extend_from_slice(&2u64.to_le_bytes());
    twice.extend_from_slice(&entry);
    twice.extend_from_slice(&entry);
    assert!(matches!(decode_state(&twice, 1), Err(StorageError::Serialization(_))));
    assert!(decode_state(&one, 1).is_ok());
}

#[test]
fn unknown_expiry_tag_is_refused() {
    let mut e = engine(1);
    e.set_at("a", b"1".to_vec(), None, 1).unwrap();
    let mut bytes = encode_state(&e.snapshot(), 0).unwrap();
    let last = bytes.len() - 1;
    assert_eq!(bytes[last], 0);
    bytes[last] = 2;
    assert!(decode_state(&bytes, 1).is_err());
}

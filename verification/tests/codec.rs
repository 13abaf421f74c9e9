use kvstore_plus_plus::wal::entry::{read_u32, read_u64, read_u8, OpType, WalEntry};
use kvstore_plus_plus::wal::error::WalError;

fn sample() -> WalEntry {
    WalEntry {
        timestamp: 7,
        key: "hello".to_string(),
        value: b"world".to_vec(),
        version: 1,
        ttl: Some(5),
        op_type: OpType::Put,
    }
}

const SAMPLE_BYTES: [u8; 55] = [
    7, 0, 0, 0, 0, 0, 0, 0, 1, 0, 0, 0, 0, 0, 0, 0, 5, 0, 0, 0, 0, 0, 0, 0, 0, 5, 0, 0, 0, 0, 0,
    0, 0, 5, 0, 0, 0, 0, 0, 0, 0, 104, 101, 108, 108, 111, 119, 111, 114, 108, 100, 76, 46, 60, 0,
];

#[test]
fn op_type_codes_round_trip() {
    assert_eq!(OpType::from_u8(0), Some(OpType::Put));
    assert_eq!(OpType::from_u8(1), Some(OpType::Del));
    assert_eq!(OpType::from_u8(2), Some(OpType::Incr));
    assert_eq!(OpType::from_u8(3), Some(OpType::Cas));
    assert_eq!(OpType::from_u8(4), None);
    assert_eq!(OpType::from_u8(255), None);
    assert_eq!(OpType::Put.as_u8(), 0);
    assert_eq!(OpType::Del.as_u8(), 1);
    assert_eq!(OpType::Incr.as_u8(), 2);
    assert_eq!(OpType::Cas.as_u8(), 3);
}

#[test]
fn serialize_lays_out_little_endian_with_crc() {
    assert_eq!(sample().serialize(), SAMPLE_BYTES.to_vec());
}

#[test]
fn smallest_record_is_header_and_checksum() {
    let rec = WalEntry {
        timestamp: 0,
        key: String::new(),
        value: Vec::new(),
        version: 0,
        ttl: None,
        op_type: OpType::Del,
    };
    let bytes = rec.serialize();
    assert_eq!(bytes.len(), 45);
    assert_eq!(&bytes[41..], &[233, 75, 43, 233]);
    assert_eq!(rec.serialized_len(), Some(45));
}

#[test]
fn record_round_trips_through_bytes() {
    let bytes = sample().serialize();
    let (back, used) = WalEntry::deserialize(&bytes).unwrap();
    assert_eq!(used, 55);
    assert_eq!(back.timestamp, 7);
    assert_eq!(back.key, "hello");
    assert_eq!(back.value, b"world");
    assert_eq!(back.version, 1);
    assert_eq!(back.ttl, Some(5));
    assert_eq!(back.op_type, OpType::Put);
}

#[test]
fn deserialize_ignores_what_follows_the_record() {
    let mut bytes = sample().serialize();
    bytes.extend_from_slice(&[9, 9, 9]);
    let (back, used) = WalEntry::deserialize(&bytes).unwrap();
    assert_eq!(used, 55);
    assert_eq!(back.key, "hello");
}

#[test]
fn zero_ttl_on_the_wire_means_none() {
    let mut rec = sample();
    rec.ttl = None;
    let bytes = rec.serialize();
    assert_eq!(&bytes[16..24], &[0u8; 8]);
    let (back, _) = WalEntry::deserialize(&bytes).unwrap();
    assert_eq!(back.ttl, None);
}

#[test]
fn non_ascii_key_round_trips() {
    let mut rec = sample();
    rec.key = "clé-ключ".to_string();
    let bytes = rec.serialize();
    let (back, used) = WalEntry::deserialize(&bytes).unwrap();
    assert_eq!(used, bytes.len());
    assert_eq!(back.key, "clé-ключ");
}

#[test]
fn too_short_input_is_invalid() {
    match WalEntry::deserialize(&[0u8; 36]) {
        Err(WalError::InvalidEntry { offset, reason }) => {
            assert_eq!(offset, 0);
            assert_eq!(reason, "too short");
        }
        other => panic!("unexpected: {:?}", other.map(|p| p.1)),
    }
}

#[test]
fn header_cut_in_the_value_length_is_unexpected_eof() {
    match WalEntry::deserialize(&[0u8; 40]) {
        Err(WalError::InvalidEntry { offset, reason }) => {
            assert_eq!(offset, 33);
            assert_eq!(reason, "unexpected EOF");
        }
        other => panic!("unexpected: {:?}", other.map(|p| p.1)),
    }
}

#[test]
fn declared_length_beyond_input_is_incomplete() {
    let bytes = sample().serialize();
    match WalEntry::deserialize(&bytes[..54]) {
        Err(WalError::InvalidEntry { offset, reason }) => {
            assert_eq!(offset, 0);
            assert_eq!(reason, "incomplete data");
        }
        other => panic!("unexpected: {:?}", other.map(|p| p.1)),
    }
    let mut huge = bytes.clone();
    for b in &mut huge[25..33] {
        *b = 0xFF;
    }
    assert!(matches!(
        WalEntry::deserialize(&huge),
        Err(WalError::InvalidEntry { offset: 0, .. })
    ));
}

#[test]
fn flipped_byte_is_a_checksum_mismatch() {
    let mut bytes = sample().serialize();
    bytes[45] ^= 0x01;
    match WalEntry::deserialize(&bytes) {
        Err(WalError::ChecksumMismatch { offset, expected, got }) => {
            assert_eq!(offset, 0);
            assert_eq!(got, 0x003c2e4c);
            assert_ne!(expected, got);
        }
        other => panic!("unexpected: {:?}", other.map(|p| p.1)),
    }
}

#[test]
fn invalid_utf8_key_is_invalid() {
    let mut rec = sample();
    rec.key = "a".to_string();
    let mut bytes = rec.serialize();
    bytes[41] = 0xFF;
    match WalEntry::deserialize(&bytes) {
        Err(WalError::InvalidEntry { offset, reason }) => {
            assert_eq!(offset, 0);
            assert_eq!(reason, "invalid UTF-8 key");
        }
        other => panic!("unexpected: {:?}", other.map(|p| p.1)),
    }
}

#[test]
fn unknown_op_code_is_named_in_the_error() {
    let mut body: Vec<u8> = Vec::new();
    body.extend_from_slice(&[0u8; 24]);
    body.push(9);
    body.extend_from_slice(&[0u8; 16]);
    let mut probe = body.clone();
    probe.extend_from_slice(&[0u8; 4]);
    let checksum = match WalEntry::deserialize(&probe) {
        Err(WalError::ChecksumMismatch { expected, got, .. }) => {
            assert_eq!(got, 0);
            expected
        }
        other => panic!("unexpected: {:?}", other.map(|p| p.1)),
    };
    body.extend_from_slice(&checksum.to_le_bytes());
    match WalEntry::deserialize(&body) {
        Err(WalError::InvalidEntry { offset, reason }) => {
            assert_eq!(offset, 0);
            assert_eq!(reason, "unknown op type: 9");
        }
        other => panic!("unexpected: {:?}", other.map(|p| p.1)),
    }
}

#[test]
fn read_helpers_step_over_what_they_read() {
    let data = [1u8, 0, 0, 0, 0, 0, 0, 0, 2, 0, 0, 0, 3];
    let mut offset = 0usize;
    assert_eq!(read_u64(&data, &mut offset).unwrap(), 1);
    assert_eq!(offset, 8);
    assert_eq!(read_u32(&data, &mut offset).unwrap(), 2);
    assert_eq!(offset, 12);
    assert_eq!(read_u8(&data, &mut offset).unwrap(), 3);
    assert_eq!(offset, 13);
    match read_u8(&data, &mut offset) {
        Err(WalError::InvalidEntry { offset: at, reason }) => {
            assert_eq!(at, 13);
            assert_eq!(reason, "unexpected EOF");
        }
        other => panic!("unexpected: {:?}", other),
    }
    assert_eq!(offset, 13);
    let mut near_end = 6usize;
    assert!(read_u64(&data, &mut near_end).is_err());
    assert_eq!(near_end, 6);
    let mut far = usize::MAX;
    assert!(read_u32(&data, &mut far).is_err());
    assert_eq!(far, usize::MAX);
}

#[test]
fn validity_follows_the_data_model() {
    assert!(sample().is_valid());
    let mut zero_ttl = sample();
    zero_ttl.ttl = Some(0);
    assert!(!zero_ttl.is_valid());
    let mut del_with_value = sample();
    del_with_value.op_type = OpType::Del;
    assert!(!del_with_value.is_valid());
    del_with_value.value.clear();
    assert!(del_with_value.is_valid());
    let mut long_key = sample();
    long_key.key = "k".repeat(65536);
    assert!(!long_key.is_valid());
    long_key.key = "k".repeat(65535);
    assert!(long_key.is_valid());
}

#[test]
fn error_messages_read_as_sentences() {
    assert_eq!(WalError::Io("disk gone".to_string()).message(), "I/O error: disk gone");
    assert_eq!(
        WalError::InvalidEntry { offset: 12, reason: "too short".to_string() }.message(),
        "Invalid WAL entry at offset 12: too short"
    );
    assert_eq!(
        WalError::ChecksumMismatch { offset: 0, expected: 10, got: 4294967295 }.message(),
        "Checksum mismatch at offset 0: expected 10, got 4294967295"
    );
    assert_eq!(WalError::FileNotFound("wal_3".to_string()).message(), "WAL file not found: wal_3");
    assert_eq!(
        WalError::ReplayError { offset: 18446744073709551615, reason: "x".to_string() }.message(),
        "Replay stopped at offset 18446744073709551615: x"
    );
}

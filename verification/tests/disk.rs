use clipwallet::disk::{
    decode_envelope, finish_enveloped, finish_flush, finish_legacy, flush, flush_force, load, wrap_envelope, DecodeResult, FileRead,
    StoreOp,
};
use clipwallet::ram::RamStore;
use clipwallet::types::{ClipData, ClipEntry};

/// Reads an envelope the way the store does: checksum, then decoding, then
/// the entry count.
fn read_back(bytes: &[u8], expected: Option<usize>) -> FileRead<Vec<String>> {
    match decode_envelope(bytes) {
        DecodeResult::Enveloped { payload, count } => finish_enveloped(
            rmp_serde::from_slice::<Vec<String>>(&payload).map_err(|e| e.to_string()),
            count,
            expected,
        ),
        DecodeResult::LegacyUnvalidated(whole) => {
            finish_legacy(rmp_serde::from_slice::<Vec<String>>(&whole).map_err(|e| e.to_string()))
        }
        DecodeResult::Corrupt(reason) => FileRead::Corrupt(reason),
    }
}

#[test]
fn test_envelope_roundtrip() {
    let payload_data = vec!["entry1".to_string(), "entry2".to_string()];
    let msgpack_payload = rmp_serde::to_vec(&payload_data).unwrap();

    let enveloped = wrap_envelope(&msgpack_payload, 2);

    let result = read_back(&enveloped, Some(2));
    match result {
        FileRead::Validated(decoded) => assert_eq!(decoded, payload_data),
        _ => panic!("Expected Validated result"),
    }
}

#[test]
fn test_legacy_format_fallback() {
    let payload_data = vec!["legacy_entry".to_string()];
    let msgpack_payload = rmp_serde::to_vec(&payload_data).unwrap();

    let result = read_back(&msgpack_payload, Some(1));
    match result {
        FileRead::Legacy(decoded) => assert_eq!(decoded, payload_data),
        _ => panic!("Expected LegacyUnvalidated result"),
    }
}

#[test]
fn test_crc_corruption_detection() {
    let payload_data = vec!["test_data".to_string()];
    let msgpack_payload = rmp_serde::to_vec(&payload_data).unwrap();
    let mut enveloped = wrap_envelope(&msgpack_payload, 1);

    // Corrupt the payload section
    enveloped[12] ^= 0xFF;

    let result = read_back(&enveloped, Some(1));
    match result {
        FileRead::Corrupt(reason) => assert!(reason.contains("checksum mismatch")),
        _ => panic!("Expected Corrupt result due to CRC mismatch"),
    }
}

#[test]
fn test_truncation_detection() {
    let payload_data = vec!["test_data".to_string()];
    let msgpack_payload = rmp_serde::to_vec(&payload_data).unwrap();
    let mut enveloped = wrap_envelope(&msgpack_payload, 1);

    // Truncate to simulate partial write
    enveloped.truncate(10);

    let result = read_back(&enveloped, Some(1));
    match result {
        FileRead::Corrupt(reason) => assert!(reason.contains("envelope truncated")),
        _ => panic!("Expected Corrupt result due to truncation"),
    }
}

#[test]
fn test_count_mismatch_detection() {
    let payload_data = vec!["test_data".to_string()];
    let msgpack_payload = rmp_serde::to_vec(&payload_data).unwrap();

    let enveloped = wrap_envelope(&msgpack_payload, 1);
    let result = read_back(&enveloped, Some(5));

    match result {
        FileRead::Corrupt(reason) => assert!(reason.contains("count 1 != caller expected 5")),
        _ => panic!("Expected Corrupt result due to count mismatch"),
    }
}

#[test]
fn undecodable_payload_is_reported_before_the_count() {
    let enveloped = wrap_envelope(&[0xc1], 1);
    match read_back(&enveloped, Some(5)) {
        FileRead::Corrupt(reason) => assert!(reason.starts_with("decode failed: ")),
        _ => panic!("expected a decoding failure"),
    }
    match read_back(&[0xc1], None) {
        FileRead::Corrupt(reason) => assert!(reason.starts_with("legacy decode failed: ")),
        _ => panic!("expected a legacy decoding failure"),
    }
    match finish_enveloped(Ok(7u8), 3, None) {
        FileRead::Validated(v) => assert_eq!(v, 7),
        _ => panic!("no count expected"),
    }
}

#[test]
fn envelope_header_holds_magic_crc_and_count() {
    let payload = b"123456789".to_vec();
    let env = wrap_envelope(&payload, 7);
    assert_eq!(&env[0..4], b"CW1\0");
    // CRC32 (IEEE) of "123456789" is 0xCBF43926.
    assert_eq!(&env[4..8], &[0x26, 0x39, 0xF4, 0xCB]);
    assert_eq!(&env[8..12], &[7, 0, 0, 0]);
    assert_eq!(&env[12..], &payload[..]);
    match decode_envelope(&env) {
        DecodeResult::Enveloped { payload: p, count } => {
            assert_eq!(p, payload);
            assert_eq!(count, 7);
        }
        other => panic!("unexpected {:?}", other),
    }
}

#[test]
fn checksum_mismatch_reports_both_values_in_hex() {
    let mut env = wrap_envelope(b"123456789", 1);
    env[4] = 0;
    env[5] = 0;
    env[6] = 0;
    env[7] = 0;
    match decode_envelope(&env) {
        DecodeResult::Corrupt(reason) => {
            assert_eq!(reason, "checksum mismatch: stored=0x00000000 computed=0xcbf43926")
        }
        other => panic!("unexpected {:?}", other),
    }
}

#[test]
fn short_file_with_magic_is_truncated_and_other_bytes_are_legacy() {
    match decode_envelope(b"CW1\0abc") {
        DecodeResult::Corrupt(reason) => assert_eq!(reason, "envelope truncated (< header)"),
        other => panic!("unexpected {:?}", other),
    }
    match decode_envelope(b"CW") {
        DecodeResult::LegacyUnvalidated(b) => assert_eq!(b, b"CW".to_vec()),
        other => panic!("unexpected {:?}", other),
    }
}

fn entry(id: u64, text: &str, ts: i64) -> ClipEntry {
    ClipEntry::new(id, ClipData::PlainText(text.to_string()), ts)
}

#[test]
fn flush_writes_every_slot_then_the_ring() {
    let mut ram = RamStore::new(10, 0);
    let empty: Vec<Option<Vec<u8>>> = (0..9).map(|_| None).collect();
    assert!(flush(&ram, &empty, b"ring").is_none());
    let payloads: Vec<Option<Vec<u8>>> = (0..9).map(|i| if i == 2 { Some(vec![1, 2, 3]) } else { None }).collect();
    ram.set_static(3, entry(1, "a", 1));
    ram.push_dynamic(entry(2, "b", 2));
    let ops = flush(&ram, &payloads, b"ring").expect("dirty store flushes");
    assert_eq!(ops.len(), 10);
    match &ops[2] {
        StoreOp::Write { name, bytes } => {
            assert_eq!(name, "slot_3.mpk");
            assert_eq!(bytes, &wrap_envelope(&[1, 2, 3], 1));
        }
        _ => panic!("slot 3 is written"),
    }
    match &ops[0] {
        StoreOp::Remove { name } => assert_eq!(name, "slot_1.mpk"),
        _ => panic!("slot 1 is removed"),
    }
    match &ops[9] {
        StoreOp::Write { name, bytes } => {
            assert_eq!(name, "dynamic_ring.mpk");
            assert_eq!(bytes, &wrap_envelope(b"ring", 1));
        }
        _ => panic!("ring is written"),
    }
    assert_eq!(flush_force(&ram, &payloads, b"ring").len(), 10);
    // A failed write leaves the store changed; only a complete flush cleans it.
    finish_flush(&mut ram, false);
    assert!(ram.is_dirty());
    finish_flush(&mut ram, true);
    assert!(!ram.is_dirty());
    assert!(flush(&ram, &payloads, b"ring").is_none());
}

#[test]
fn load_fills_slots_sorts_ring_and_flags_legacy_files() {
    let mut ram = RamStore::new(2, 0);
    let mut slots: Vec<FileRead<ClipEntry>> = (0..9).map(|_| FileRead::Absent).collect();
    slots[0] = FileRead::Validated(entry(1, "one", 10));
    slots[4] = FileRead::Corrupt("bad".to_string());
    let ring = FileRead::Validated(vec![entry(2, "old", 5), entry(3, "new", 50), entry(4, "mid", 20)]);
    let report = load(&mut ram, slots, ring);
    assert_eq!(report.loaded_slots, 1);
    assert_eq!(report.loaded_dynamic, 2);
    assert!(!report.needs_rewrite);
    assert!(!ram.is_dirty());
    assert_eq!(ram.get_static(1).unwrap().id, 1);
    assert!(ram.get_static(5).is_none());
    let ids: Vec<u64> = ram.dynamic_ring().iter().map(|e| e.id).collect();
    assert_eq!(ids, vec![3, 4]);

    let mut legacy = RamStore::new(2, 0);
    let mut slots: Vec<FileRead<ClipEntry>> = (0..9).map(|_| FileRead::Absent).collect();
    slots[8] = FileRead::Legacy(entry(9, "nine", 1));
    let ring = FileRead::Legacy(vec![entry(5, "a", 1), entry(6, "b", 2), entry(7, "c", 3)]);
    let report = load(&mut legacy, slots, ring);
    assert!(report.needs_rewrite);
    assert!(legacy.is_dirty());
    // A legacy ring is not trimmed to the capacity.
    assert_eq!(report.loaded_dynamic, 3);
    assert_eq!(legacy.get_static(9).unwrap().id, 9);
}

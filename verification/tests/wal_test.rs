use chronos::types::SampleReading;
use chronos::wal::{decode_entry, encode_entry, WalRecord, WalReplay};
use chronos::types::Tags;

fn reading(t: i64, v: f64) -> SampleReading {
    SampleReading { timestamp: t, value_bits: v.to_bits() }
}

#[test]
fn test_entry_layout() {
    let r = reading(-5, 42.0);
    let buf = encode_entry(0x0102030405060708, &r);
    assert_eq!(&buf[0..8], &0x0102030405060708u64.to_le_bytes());
    assert_eq!(&buf[8..16], &(-5i64).to_le_bytes());
    assert_eq!(&buf[16..24], &42.0f64.to_le_bytes());
}

#[test]
fn test_entry_roundtrip() {
    let r = reading(1_700_000_000_000, -0.125);
    let buf = encode_entry(77, &r);
    assert_eq!(decode_entry(&buf), (77, r));
}

#[test]
fn test_replay_returns_written_entries() {
    let written = vec![(1u64, reading(10, 1.5)), (2, reading(11, 2.5)), (1, reading(12, 3.5))];
    let mut log = Vec::new();
    for (id, r) in &written {
        log.extend_from_slice(&encode_entry(*id, r));
    }
    assert_eq!(WalReplay::decode_log(&log), written);
    // A write cut short leaves a partial entry, which is not replayed.
    log.extend_from_slice(&[9u8; 23]);
    assert_eq!(WalReplay::decode_log(&log), written);
}

#[test]
fn test_replay_empty_and_short_logs() {
    assert!(WalReplay::decode_log(&[]).is_empty());
    assert!(WalReplay::decode_log(&[1u8; 23]).is_empty());
    assert_eq!(WalReplay::decode_log(&[0u8; 24]), vec![(0, reading(0, 0.0))]);
}

#[test]
fn test_wal_record_holds_write() {
    let mut tags = Tags::new();
    tags.insert("host".to_string(), "a".to_string());
    let rec = WalRecord { metric: "cpu".to_string(), tags, timestamp: 5, value_bits: 1.0f64.to_bits() };
    let copy = rec.clone();
    assert_eq!(copy.metric, "cpu");
    assert_eq!(copy.tags.entries(), rec.tags.entries());
    assert_eq!(f64::from_bits(copy.value_bits), 1.0);
}

#[test]
fn test_encode_batch_is_entries_in_order() {
    let entries = vec![(3u64, reading(1, 1.0)), (4, reading(2, -2.0))];
    let bytes = chronos::wal::encode_batch(&entries);
    assert_eq!(bytes.len(), 48);
    assert_eq!(&bytes[0..24], &encode_entry(3, &entries[0].1));
    assert_eq!(&bytes[24..48], &encode_entry(4, &entries[1].1));
    assert_eq!(WalReplay::decode_log(&bytes), entries);
    assert!(chronos::wal::encode_batch(&[]).is_empty());
}

use chronos::types::{SampleReading, Series, Tags};

fn tags_of(pairs: &[(&str, &str)]) -> Tags {
    let mut tags = Tags::new();
    for (k, v) in pairs {
        tags.insert(k.to_string(), v.to_string());
    }
    tags
}

#[test]
fn test_tags_kept_in_key_order() {
    let tags = tags_of(&[("region", "us"), ("host", "a"), ("az", "1")]);
    let keys: Vec<&str> = tags.entries().iter().map(|(k, _)| k.as_str()).collect();
    assert_eq!(keys, vec!["az", "host", "region"]);
    assert_eq!(tags.len(), 3);
}

#[test]
fn test_tags_insertion_order_does_not_matter() {
    let a = tags_of(&[("host", "A"), ("region", "US")]);
    let b = tags_of(&[("region", "US"), ("host", "A")]);
    assert_eq!(a.entries(), b.entries());
}

#[test]
fn test_tags_insert_replaces_value() {
    let mut tags = tags_of(&[("host", "a")]);
    let previous = tags.insert("host".to_string(), "b".to_string());
    assert_eq!(previous, Some("a".to_string()));
    assert_eq!(tags.len(), 1);
    assert_eq!(tags.entries()[0], ("host".to_string(), "b".to_string()));
    let fresh = tags.insert("zone".to_string(), "z".to_string());
    assert_eq!(fresh, None);
    assert_eq!(tags.len(), 2);
}

#[test]
fn test_tags_order_is_by_code_point() {
    // Upper case letters come before lower case ones, and a prefix before
    // the longer key.
    let tags = tags_of(&[("b", "1"), ("B", "2"), ("bb", "3"), ("", "4")]);
    let keys: Vec<&str> = tags.entries().iter().map(|(k, _)| k.as_str()).collect();
    assert_eq!(keys, vec!["", "B", "b", "bb"]);
}

#[test]
fn test_tags_clone_keeps_entries() {
    let tags = tags_of(&[("host", "a"), ("dc", "x")]);
    let copy = tags.clone();
    assert_eq!(copy.entries(), tags.entries());
}

#[test]
fn test_series_clone() {
    let s = Series { id: 7, metric: "cpu".to_string(), tags: tags_of(&[("host", "a")]) };
    let c = s.clone();
    assert_eq!(c.id, 7);
    assert_eq!(c.metric, "cpu");
    assert_eq!(c.tags.entries(), s.tags.entries());
}

#[test]
fn test_reading_le_bytes_layout() {
    let r = SampleReading { timestamp: 1, value_bits: 2.5f64.to_bits() };
    let mut buf = [0u8; 16];
    r.write_le_bytes(&mut buf);
    assert_eq!(&buf[0..8], &1i64.to_le_bytes());
    assert_eq!(&buf[8..16], &2.5f64.to_le_bytes());
}

#[test]
fn test_reading_roundtrip() {
    for (t, v) in [(0i64, 0.0f64), (-1, -3.75), (i64::MIN, f64::MAX), (i64::MAX, f64::MIN_POSITIVE)] {
        let r = SampleReading { timestamp: t, value_bits: v.to_bits() };
        let mut buf = [0u8; 16];
        r.write_le_bytes(&mut buf);
        let back = SampleReading::from_le_bytes(&buf);
        assert_eq!(back, r);
        assert_eq!(f64::from_bits(back.value_bits), v);
    }
}

#[test]
fn test_reading_from_bytes() {
    let mut buf = [0u8; 16];
    buf[0] = 0xff;
    buf[1] = 0xff;
    buf[2] = 0xff;
    buf[3] = 0xff;
    buf[4] = 0xff;
    buf[5] = 0xff;
    buf[6] = 0xff;
    buf[7] = 0xff;
    buf[8..16].copy_from_slice(&1.0f64.to_le_bytes());
    let r = SampleReading::from_le_bytes(&buf);
    assert_eq!(r.timestamp, -1);
    assert_eq!(f64::from_bits(r.value_bits), 1.0);
}

#[test]
fn test_tags_get() {
    let tags = tags_of(&[("host", "a"), ("region", "us")]);
    assert_eq!(tags.get("region"), Some(&"us".to_string()));
    assert_eq!(tags.get("host"), Some(&"a".to_string()));
    assert_eq!(tags.get("zone"), None);
}

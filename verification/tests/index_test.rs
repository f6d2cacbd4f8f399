use chronos::index::{CardinalityTracker, InvertedIndex, MetadataStore, SeriesIndex, SeriesKey};
use chronos::types::{Series, Tags};

fn tags_of(pairs: &[(&str, &str)]) -> Tags {
    let mut tags = Tags::new();
    for (k, v) in pairs {
        tags.insert(k.to_string(), v.to_string());
    }
    tags
}

#[test]
fn test_series_ids_start_at_one_and_count_up() {
    let mut idx = SeriesIndex::new();
    let a = idx.get_or_create("cpu", &tags_of(&[("host", "a")]));
    let b = idx.get_or_create("cpu", &tags_of(&[("host", "b")]));
    let c = idx.get_or_create("mem", &tags_of(&[("host", "a")]));
    assert_eq!((a, b, c), (1, 2, 3));
}

#[test]
fn test_same_series_same_id() {
    let mut idx = SeriesIndex::new();
    let a = idx.get_or_create("cpu", &tags_of(&[("host", "a"), ("region", "us")]));
    let b = idx.get_or_create("cpu", &tags_of(&[("region", "us"), ("host", "a")]));
    assert_eq!(a, b);
    let c = idx.get_or_create("cpu", &tags_of(&[("region", "us")]));
    assert_ne!(a, c);
}

#[test]
fn test_get_series_returns_what_was_created() {
    let mut idx = SeriesIndex::default();
    let tags = tags_of(&[("host", "a"), ("dc", "x")]);
    let id = idx.get_or_create("disk", &tags);
    let s = idx.get_series(id).unwrap();
    assert_eq!(s.id, id);
    assert_eq!(s.metric, "disk");
    assert_eq!(s.tags.entries(), tags.entries());
    assert!(idx.get_series(id + 1).is_none());
    assert!(idx.get_series(0).is_none());
}

#[test]
fn test_series_key_from_tags() {
    let tags = tags_of(&[("b", "2"), ("a", "1")]);
    let key = SeriesKey::from(("m", &tags));
    assert_eq!(key.metric, "m");
    assert_eq!(
        key.tags,
        vec![("a".to_string(), "1".to_string()), ("b".to_string(), "2".to_string())]
    );
    assert_eq!(SeriesKey::from_parts("m", &tags), key);
}

#[test]
fn test_metadata_store_read_after_write() {
    let mut store = MetadataStore::new();
    assert!(store.get(5).is_none());
    store.insert(Series { id: 5, metric: "cpu".to_string(), tags: tags_of(&[("h", "1")]) });
    store.insert(Series { id: 6, metric: "mem".to_string(), tags: Tags::new() });
    let s = store.get(5).unwrap();
    assert_eq!(s.metric, "cpu");
    store.insert(Series { id: 5, metric: "net".to_string(), tags: Tags::new() });
    assert_eq!(store.get(5).unwrap().metric, "net");
    assert_eq!(store.get(6).unwrap().metric, "mem");
}

#[test]
fn test_inverted_index_lookup() {
    let mut idx = InvertedIndex::default();
    idx.insert(1, &[("host".to_string(), "a".to_string()), ("region".to_string(), "us".to_string())]);
    idx.insert(2, &[("host".to_string(), "b".to_string()), ("region".to_string(), "us".to_string())]);
    let us = idx.lookup("region", "us");
    assert_eq!(us.len(), 2);
    assert!(us.contains(&1) && us.contains(&2));
    let a = idx.lookup("host", "a");
    assert_eq!(a.len(), 1);
    assert!(a.contains(&1));
    assert!(idx.lookup("host", "c").is_empty());
    assert!(idx.lookup("region", "eu").is_empty());
}

#[test]
fn test_inverted_index_keeps_pairs_apart() {
    // The pair (`a=b`, `c`) and the pair (`a`, `b=c`) are different pairs and
    // have different posting lists.
    let mut idx = InvertedIndex::new();
    idx.insert(9, &[("a=b".to_string(), "c".to_string())]);
    assert!(idx.lookup("a=b", "c").contains(&9));
    assert!(idx.lookup("a", "b=c").is_empty());
}

#[test]
fn test_inverted_index_other_pairs_unchanged() {
    let mut idx = InvertedIndex::new();
    idx.insert(1, &[("host".to_string(), "a".to_string())]);
    idx.insert(2, &[("region".to_string(), "us".to_string())]);
    let a = idx.lookup("host", "a");
    assert_eq!(a.len(), 1);
    assert!(a.contains(&1));
}

#[test]
fn test_inverted_index_insert_is_idempotent() {
    let mut idx = InvertedIndex::new();
    idx.insert(3, &[("k".to_string(), "v".to_string())]);
    idx.insert(3, &[("k".to_string(), "v".to_string())]);
    assert_eq!(idx.lookup("k", "v").len(), 1);
}

#[test]
fn test_cardinality_counts() {
    let mut t = CardinalityTracker::new();
    assert_eq!(t.get_count("host"), 0);
    t.record_tag_value("host");
    t.record_tag_value("host");
    t.record_tag_value("region");
    assert_eq!(t.get_count("host"), 2);
    assert_eq!(t.get_count("region"), 1);
    assert_eq!(CardinalityTracker::default().get_count("host"), 0);
}

#[test]
fn test_series_ids_dense_and_next() {
    let mut idx = SeriesIndex::new();
    assert_eq!(idx.next_series_id(), 1);
    for i in 0..5 {
        let id = idx.get_or_create("m", &tags_of(&[("i", &i.to_string())]));
        assert_eq!(id, i + 1);
    }
    assert_eq!(idx.get_or_create("m", &tags_of(&[("i", "2")])), 3);
    assert_eq!(idx.next_series_id(), 6);
}

#[test]
fn test_cardinality_counts_occurrences() {
    let mut t = CardinalityTracker::new();
    let keys = ["a", "b", "a", "c", "a", "b"];
    for k in keys.iter() {
        t.record_tag_value(k);
    }
    assert_eq!(t.get_count("a"), 3);
    assert_eq!(t.get_count("b"), 2);
    assert_eq!(t.get_count("c"), 1);
    assert_eq!(t.get_count("d"), 0);
}

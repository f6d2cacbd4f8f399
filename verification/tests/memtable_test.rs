use chronos::memtable::{ImmutableMemtable, Memtable, MemtableManager};
use chronos::types::SampleReading;

fn bits(v: f64) -> u64 {
    v.to_bits()
}

#[test]
fn test_memtable_groups_by_series_in_order() {
    let mut t = Memtable::new();
    t.insert(2, 10, bits(1.0));
    t.insert(1, 11, bits(2.0));
    t.insert(2, 12, bits(3.0));
    assert_eq!(t.total_points(), 3);
    let ids: Vec<u64> = t.series().keys().copied().collect();
    assert_eq!(ids, vec![1, 2]);
    assert_eq!(
        t.series()[&2],
        vec![
            SampleReading { timestamp: 10, value_bits: bits(1.0) },
            SampleReading { timestamp: 12, value_bits: bits(3.0) }
        ]
    );
}

#[test]
fn test_immutable_memtable_shares_table() {
    let mut t = Memtable::new();
    t.insert(1, 1, bits(0.5));
    let frozen = ImmutableMemtable::new(t);
    let a = frozen.inner();
    let b = frozen.inner();
    assert!(std::sync::Arc::ptr_eq(&a, &b));
    assert_eq!(a.total_points(), 1);
}

#[test]
fn test_manager_rotates_at_threshold() {
    let mut m = MemtableManager::new(2);
    m.insert(1, 1, bits(1.0));
    assert!(m.immutable_tables().is_empty());
    m.insert(1, 2, bits(2.0));
    m.insert(2, 3, bits(3.0));
    let tables = m.immutable_tables();
    assert_eq!(tables.len(), 1);
    assert_eq!(tables[0].inner().total_points(), 2);
    assert!(m.immutable_tables().is_empty());
    m.insert(3, 4, bits(4.0));
    let tables = m.immutable_tables();
    assert_eq!(tables.len(), 1);
    let inner = tables[0].inner();
    assert_eq!(inner.total_points(), 2);
    assert_eq!(inner.series()[&2][0].timestamp, 3);
    assert_eq!(inner.series()[&3][0].timestamp, 4);
}

#[test]
fn test_manager_threshold_zero_freezes_every_point() {
    let mut m = MemtableManager::new(0);
    m.insert(1, 1, bits(1.0));
    m.insert(1, 2, bits(1.0));
    let tables = m.immutable_tables();
    assert_eq!(tables.len(), 2);
    assert_eq!(tables[0].inner().total_points(), 1);
    assert_eq!(tables[1].inner().total_points(), 1);
}

#[test]
fn test_manager_keeps_every_point() {
    let mut m = MemtableManager::new(3);
    for i in 0..10 {
        m.insert(i % 4, i as i64, bits(i as f64));
    }
    let tables = m.immutable_tables();
    assert_eq!(tables.len(), 3);
    let frozen: usize = tables.iter().map(|t| t.inner().total_points()).sum();
    assert_eq!(frozen, 9);
}

#[test]
fn test_frozen_tables_hold_exactly_threshold() {
    let mut m = MemtableManager::new(2);
    m.insert(7, 10, bits(1.0));
    m.insert(7, 20, bits(2.0));
    m.insert(8, 30, bits(3.0));
    let tables = m.immutable_tables();
    assert_eq!(tables.len(), 1);
    let t = tables[0].inner();
    assert_eq!(t.total_points(), 2);
    assert_eq!(
        t.series()[&7],
        vec![
            SampleReading { timestamp: 10, value_bits: bits(1.0) },
            SampleReading { timestamp: 20, value_bits: bits(2.0) }
        ]
    );
    assert!(!t.series().contains_key(&8));
}

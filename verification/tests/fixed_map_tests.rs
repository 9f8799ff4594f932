use budgetkernel::fixed_map::FixedMap;
use budgetkernel::{Dim, MAX_DIMS};

fn present_count(map: &FixedMap) -> usize {
    Dim::ALL
        .into_iter()
        .filter(|&dim| map.contains(dim))
        .count()
}

#[test]
fn new_map_is_empty() {
    let m = FixedMap::new();
    assert!(m.is_empty());
    for dim in Dim::ALL {
        assert!(!m.contains(dim));
        assert!(m.get(dim).is_none());
    }
}

#[test]
fn insert_and_get_roundtrip() {
    let mut m = FixedMap::new();
    assert!(m.insert(Dim::Tokens, 42).is_none());
    assert_eq!(m.get(Dim::Tokens), Some(42));
    assert!(m.contains(Dim::Tokens));
}

#[test]
fn insert_returns_previous_value() {
    let mut m = FixedMap::new();
    m.insert(Dim::Tokens, 10);
    let prev = m.insert(Dim::Tokens, 20);
    assert_eq!(prev, Some(10));
    assert_eq!(m.get(Dim::Tokens), Some(20));
}

#[test]
fn get_or_returns_default_when_absent() {
    let m = FixedMap::new();
    assert_eq!(m.get_or(Dim::Millis, 99), 99);
}

#[test]
fn get_or_returns_stored_value_when_present() {
    let mut m = FixedMap::new();
    m.insert(Dim::Millis, 7);
    assert_eq!(m.get_or(Dim::Millis, 99), 7);
}

#[test]
fn present_count_tracks_distinct_dimensions() {
    let mut m = FixedMap::new();
    assert_eq!(present_count(&m), 0);
    m.insert(Dim::Tokens, 1);
    assert_eq!(present_count(&m), 1);
    m.insert(Dim::Bytes, 2);
    assert_eq!(present_count(&m), 2);
    // Re-inserting the same dim must not increment the present count.
    m.insert(Dim::Tokens, 3);
    assert_eq!(present_count(&m), 2);
}

#[test]
fn is_empty_tracks_insertions() {
    let mut m = FixedMap::new();
    assert!(m.is_empty());
    let _ = m.insert(Dim::Tokens, 1);
    assert!(!m.is_empty());
}

#[test]
fn dimensions_are_independent() {
    let mut m = FixedMap::new();
    m.insert(Dim::Tokens, 100);
    m.insert(Dim::Bytes, 200);
    assert_eq!(m.get(Dim::Tokens), Some(100));
    assert_eq!(m.get(Dim::Bytes), Some(200));
    assert!(m.get(Dim::Millis).is_none());
}

#[test]
fn all_dims_can_be_inserted_and_read() {
    let mut m = FixedMap::new();
    for (i, dim) in Dim::ALL.iter().enumerate() {
        m.insert(*dim, i as u64);
    }
    assert_eq!(present_count(&m), MAX_DIMS);
    for (i, dim) in Dim::ALL.iter().enumerate() {
        assert_eq!(m.get(*dim), Some(i as u64));
    }
}

#[test]
fn insert_overwrites_without_growing_present_count() {
    let mut m = FixedMap::new();
    m.insert(Dim::Calls, 1);
    m.insert(Dim::Calls, 2);
    m.insert(Dim::Calls, 3);
    assert_eq!(present_count(&m), 1);
    assert_eq!(m.get(Dim::Calls), Some(3));
}

#[test]
fn is_empty_sees_last_slot() {
    let mut m = FixedMap::new();
    m.insert(Dim::Custom2, 0);
    assert!(!m.is_empty());
    assert_eq!(m.get(Dim::Custom2), Some(0));
    assert_eq!(m.get_or(Dim::Custom2, 5), 0);
}

use glance::dedup::{SeenCache, MAX_SEEN, SEEN_TTL};

#[test]
fn inserting_twice_keeps_path_known() {
    let mut c = SeenCache::new();
    assert!(!c.contains("/d/a"));
    c.insert("/d/a".to_string(), 100);
    assert!(c.contains("/d/a"));
    c.insert("/d/a".to_string(), 101);
    assert!(c.contains("/d/a"));
    assert!(!c.contains("/d/b"));
    assert_eq!(c.len(), 2);
}

#[test]
fn stale_entries_are_evicted_on_insert() {
    let mut c = SeenCache::new();
    c.insert("/d/a".to_string(), 100);
    c.insert("/d/b".to_string(), 200);
    c.insert("/d/c".to_string(), 100 + SEEN_TTL);
    assert!(c.contains("/d/a"));
    assert!(c.contains("/d/b"));
    c.insert("/d/d".to_string(), 101 + SEEN_TTL);
    assert!(!c.contains("/d/a"));
    assert!(c.contains("/d/b"));
    assert_eq!(c.len(), 3);
}

#[test]
fn clock_going_back_evicts_nothing() {
    let mut c = SeenCache::new();
    c.insert("/d/a".to_string(), 10_000);
    c.insert("/d/b".to_string(), 5);
    assert!(c.contains("/d/a"));
    assert!(c.contains("/d/b"));
}

#[test]
fn full_record_drops_its_oldest() {
    let mut c = SeenCache::new();
    for i in 0..MAX_SEEN {
        c.insert(format!("/d/{i}"), 1);
    }
    assert_eq!(c.len(), MAX_SEEN);
    c.insert("/d/last".to_string(), 2);
    assert_eq!(c.len(), MAX_SEEN);
    assert!(!c.contains("/d/0"));
    assert!(c.contains("/d/1"));
    assert!(c.contains("/d/last"));
}

#[test]
fn path_survives_fewer_than_capacity_others_within_window() {
    let mut c = SeenCache::new();
    c.insert("/d/p".to_string(), 1_000);
    for i in 0..(MAX_SEEN - 1) {
        c.insert(format!("/d/o{i}"), 1_000 + SEEN_TTL);
    }
    assert!(c.contains("/d/p"));
    c.insert("/d/last".to_string(), 1_000 + SEEN_TTL);
    assert!(!c.contains("/d/p"));
}

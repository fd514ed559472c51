use glance::history::{scroll_mutation, FileState, HistoryState, Mutation};

fn file(path: &str, time_ms: u64) -> FileState {
    FileState::new(path.to_string(), 100, time_ms)
}

#[test]
fn file_name_is_last_component() {
    let f = FileState::new("/home/u/Pictures/shot.png".to_string(), 2048, 5);
    assert_eq!(f.name, "shot.png");
    assert_eq!(f.path, "/home/u/Pictures/shot.png");
    assert_eq!(f.size, 2048);
    assert_eq!(f.time_ms, 5);
    let g = FileState::new("plain".to_string(), 0, 0);
    assert_eq!(g.name, "plain");
}

#[test]
fn push_bounds_history_and_keeps_newest_first() {
    let mut h = HistoryState::new();
    for i in 0..7u64 {
        h.push(file(&format!("/d/f{i}"), i), 5);
        assert_eq!(h.entries.len(), std::cmp::min(i as usize + 1, 5));
        assert_eq!(h.entries[0].path, format!("/d/f{i}"));
        assert_eq!(h.selected, 0);
    }
    let names: Vec<&str> = h.entries.iter().map(|e| e.name.as_str()).collect();
    assert_eq!(names, vec!["f6", "f5", "f4", "f3", "f2"]);
}

#[test]
fn push_with_zero_bound_keeps_nothing() {
    let mut h = HistoryState::new();
    h.push(file("/d/a", 1), 0);
    assert!(h.entries.is_empty());
    assert_eq!(h.selected, 0);
}

#[test]
fn selection_is_clamped() {
    let mut h = HistoryState::new();
    h.select_prev();
    assert_eq!(h.selected, 0);
    h.select_next();
    assert_eq!(h.selected, 0);
    for i in 0..3u64 {
        h.push(file(&format!("/d/f{i}"), i), 5);
    }
    h.select_prev();
    h.select_prev();
    assert_eq!(h.selected, 2);
    h.select_prev();
    assert_eq!(h.selected, 2);
    assert_eq!(h.current().unwrap().name, "f0");
    h.select_next();
    h.select_next();
    h.select_next();
    assert_eq!(h.selected, 0);
    h.select_prev();
    h.push(file("/d/f3", 3), 5);
    assert_eq!(h.selected, 0);
}

#[test]
fn stale_selection_is_clamped_on_move_older() {
    let mut h = HistoryState { entries: vec![file("/d/a", 1), file("/d/b", 2)], selected: 7 };
    assert!(h.current().is_none());
    h.select_prev();
    assert_eq!(h.selected, 1);
    let mut h = HistoryState { entries: vec![file("/d/a", 1)], selected: 7 };
    h.select_next();
    assert_eq!(h.selected, 6);
}

#[test]
fn expiry_has_two_seconds_of_grace() {
    let t0 = 1_700_000_000_000u64;
    let f = file("/d/a", t0);
    assert!(!f.is_expired(t0, 10));
    assert!(!f.is_expired(t0 + 10_000, 10));
    assert!(!f.is_expired(t0 + 12_000, 10));
    assert!(f.is_expired(t0 + 12_001, 10));
    assert!(f.is_expired(t0 + 13_000, 10));
    assert!(!f.is_expired(t0 - 50_000, 10));
    assert!(!f.is_expired(u64::MAX, u64::MAX));
}

#[test]
fn mutations_in_either_order_lose_nothing() {
    let mut base = HistoryState::new();
    base.push(file("/d/old1", 1), 5);
    base.push(file("/d/old0", 2), 5);

    let mut a = HistoryState { entries: base.entries.clone(), selected: base.selected };
    a.apply(Mutation::Push { entry: file("/d/new", 3), max_size: 5 });
    a.apply(Mutation::SelectPrev);

    let mut b = HistoryState { entries: base.entries.clone(), selected: base.selected };
    b.apply(Mutation::SelectPrev);
    b.apply(Mutation::Push { entry: file("/d/new", 3), max_size: 5 });

    let pa: Vec<&str> = a.entries.iter().map(|e| e.path.as_str()).collect();
    let pb: Vec<&str> = b.entries.iter().map(|e| e.path.as_str()).collect();
    assert_eq!(pa, vec!["/d/new", "/d/old0", "/d/old1"]);
    assert_eq!(pa, pb);
    assert_eq!(a.selected, 1);
    assert_eq!(b.selected, 0);
}

#[test]
fn displayed_entry_and_live_count() {
    let t0 = 1_000_000u64;
    let mut h = HistoryState::new();
    h.push(file("/d/a", t0), 5);
    h.push(file("/d/b", t0 + 5_000), 5);
    assert_eq!(h.displayed(t0 + 5_000, 10).unwrap().name, "b");
    assert_eq!(h.live_entries(t0 + 5_000, 10), 2);
    assert_eq!(h.live_entries(t0 + 13_000, 10), 1);
    assert!(h.displayed(t0 + 30_000, 10).is_none());
    assert_eq!(h.live_entries(t0 + 30_000, 10), 0);
    h.select_prev();
    assert_eq!(h.displayed(t0 + 30_000, 10).unwrap().name, "a");
}

#[test]
fn scroll_words() {
    assert!(matches!(scroll_mutation("up"), Some(Mutation::SelectPrev)));
    assert!(matches!(scroll_mutation("down"), Some(Mutation::SelectNext)));
    assert!(scroll_mutation("sideways").is_none());
    assert!(scroll_mutation("").is_none());
}

#[test]
fn file_name_follows_path_components() {
    let cases = [
        "a/", "x/.", "x/..", "/", ".", "..", "", "a//b", "./a", "a/./", "a/b/./.", "/..", "../",
        "b/.x", "a.", "/home/u/shot.png", "dir/..x", "a/.../", "//", "a/b//", "./", "/.",
    ];
    for p in cases {
        let expected = std::path::Path::new(p)
            .file_name()
            .map(|n| n.to_string_lossy().into_owned())
            .unwrap_or_default();
        let f = FileState::new(p.to_string(), 0, 0);
        assert_eq!(f.name, expected, "path {p:?}");
    }
    assert_eq!(FileState::new("a/".to_string(), 0, 0).name, "a");
    assert_eq!(FileState::new("x/.".to_string(), 0, 0).name, "x");
    assert_eq!(FileState::new("x/..".to_string(), 0, 0).name, "");
}

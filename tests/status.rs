use glance::history::{FileState, HistoryState};
use glance::status::status_line;

fn history(now: u64) -> HistoryState {
    let mut h = HistoryState::new();
    h.push(FileState::new("/d/report-final-version-2.pdf".to_string(), 1536, now - 30_000), 5);
    h.push(FileState::new("/d/a.txt".to_string(), 12, now - 1_000), 5);
    h.push(FileState::new("/d/shot.png".to_string(), 2048, now), 5);
    h
}

#[test]
fn shows_selected_entry_with_count() {
    let now = 1_700_000_000_000u64;
    let h = history(now);
    let line = status_line(&h, None, now, 10);
    assert!(line.active);
    assert_eq!(line.text, " shot.png (1/2)");
    assert_eq!(line.tooltip, "▸ shot.png (2.0 KB)\n  a.txt (12 B)");
    let line = status_line(&h, Some(1), now, 10);
    assert_eq!(line.text, " a.txt (2/2)");
    assert_eq!(line.tooltip, "  shot.png (2.0 KB)\n▸ a.txt (12 B)");
}

#[test]
fn expired_or_missing_selection_shows_nothing() {
    let now = 1_700_000_000_000u64;
    let h = history(now);
    for idx in [Some(2), Some(3)] {
        let line = status_line(&h, idx, now, 10);
        assert!(!line.active);
        assert_eq!(line.text, "");
        assert_eq!(line.tooltip, "");
    }
    let empty = HistoryState::new();
    assert!(!status_line(&empty, None, now, 10).active);
}

#[test]
fn long_names_are_shortened() {
    let now = 5_000_000u64;
    let mut h = HistoryState::new();
    h.push(FileState::new("/d/report-final-version-2.pdf".to_string(), 1536, now), 5);
    let line = status_line(&h, None, now, 10);
    assert_eq!(line.text, " report-final-ve…");
    assert_eq!(line.tooltip, "▸ report-final-version-2.pdf (1.5 KB)");
    let mut h = HistoryState::new();
    h.push(FileState::new("/d/exactly-18-chars".to_string(), 1, now), 5);
    assert_eq!(status_line(&h, None, now, 10).text, " exactly-18-chars");
}

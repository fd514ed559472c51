use glance::config::Config;
use glance::history::{HistoryState, Mutation};
use glance::watcher::{candidate_path, is_ignored_name, DirEvent, Watcher};

fn event(name: &str) -> DirEvent {
    DirEvent {
        closed_after_write: true,
        moved_in: false,
        dir: Some("/home/u/Pictures".to_string()),
        name: Some(name.to_string()),
    }
}

#[test]
fn new_file_is_pushed_once() {
    let cfg = Config::default();
    let mut w = Watcher::new();
    let mut h = HistoryState::new();
    let now = 1_700_000_000_000u64;

    let path = candidate_path(&event("shot.png"), &cfg.ignore_suffixes).unwrap();
    assert_eq!(path, "/home/u/Pictures/shot.png");
    let m = w.on_candidate(path.clone(), Some(2048), now, cfg.history_size).unwrap();
    assert!(matches!(&m, Mutation::Push { max_size: 5, .. }));
    h.apply(m);
    w.on_pushed(now, cfg.dismiss_seconds);

    assert_eq!(h.entries.len(), 1);
    assert_eq!(h.entries[0].name, "shot.png");
    assert_eq!(h.entries[0].size, 2048);
    assert_eq!(h.selected, 0);
    assert!(w.seen.contains(&path));
    assert_eq!(w.dismiss_at, Some(now + 10_000));

    // the second signal of the same write is a repeat
    assert!(w.on_candidate(path, Some(2048), now + 500, cfg.history_size).is_none());
}

#[test]
fn partial_download_is_ignored() {
    let cfg = Config::default();
    assert!(candidate_path(&event("video.mp4.part"), &cfg.ignore_suffixes).is_none());
    assert!(candidate_path(&event("a.crdownload"), &cfg.ignore_suffixes).is_none());
    assert!(candidate_path(&event("a.tmp"), &cfg.ignore_suffixes).is_none());
    assert!(candidate_path(&event(".hidden.png"), &cfg.ignore_suffixes).is_none());
    assert!(is_ignored_name(".x", &vec![]));
    assert!(!is_ignored_name("x.partial", &cfg.ignore_suffixes));
}

#[test]
fn other_event_kinds_and_unknown_directories_are_ignored() {
    let cfg = Config::default();
    let mut ev = event("a.png");
    ev.closed_after_write = false;
    assert!(candidate_path(&ev, &cfg.ignore_suffixes).is_none());
    ev.moved_in = true;
    assert_eq!(candidate_path(&ev, &cfg.ignore_suffixes).unwrap(), "/home/u/Pictures/a.png");
    ev.dir = None;
    assert!(candidate_path(&ev, &cfg.ignore_suffixes).is_none());
    let ev = DirEvent { closed_after_write: true, moved_in: false, dir: Some("/d/".to_string()), name: None };
    assert!(candidate_path(&ev, &cfg.ignore_suffixes).is_none());
}

#[test]
fn non_regular_file_is_not_recorded() {
    let mut w = Watcher::new();
    assert!(w.on_candidate("/d/sub".to_string(), None, 1000, 5).is_none());
    assert!(!w.seen.contains("/d/sub"));
    assert!(w.on_candidate("/d/sub".to_string(), Some(0), 2000, 5).is_some());
}

#[test]
fn dismissal_fires_once_when_due() {
    let mut w = Watcher::new();
    assert!(!w.check_dismiss(5, false));
    w.on_pushed(1_000, 10);
    assert!(!w.check_dismiss(10_999, false));
    assert_eq!(w.dismiss_at, Some(11_000));
    assert!(w.check_dismiss(11_000, false));
    assert_eq!(w.dismiss_at, None);
    assert!(!w.check_dismiss(12_000, false));
}

#[test]
fn open_menu_skips_the_dismissal() {
    let mut w = Watcher::new();
    w.on_pushed(0, 10);
    assert!(!w.check_dismiss(10_000, true));
    assert_eq!(w.dismiss_at, None);
    assert!(!w.check_dismiss(20_000, false));
}

#[test]
fn deadline_saturates() {
    let mut w = Watcher::new();
    w.on_pushed(u64::MAX - 5, 10);
    assert_eq!(w.dismiss_at, Some(u64::MAX));
}

#[test]
fn repeat_after_other_files_is_still_a_repeat() {
    let mut w = Watcher::new();
    let now = 1_700_000_000_000u64;
    assert!(w.on_candidate("/d/shot.png".to_string(), Some(2048), now, 5).is_some());
    for i in 0..50u64 {
        assert!(w.on_candidate(format!("/d/f{i}"), Some(1), now + i * 1000, 5).is_some());
    }
    assert!(w.on_candidate("/d/shot.png".to_string(), Some(2048), now + 3_000_000, 5).is_none());
}

use glance::config::{join_path, Config, MenuStyle};

#[test]
fn defaults() {
    let c = Config::default();
    assert_eq!(c.watch_dirs, vec!["~/Pictures/Screenshots", "~/Downloads"]);
    assert_eq!(c.signal_number, 8);
    assert_eq!(c.dismiss_seconds, 10);
    assert_eq!(c.ignore_suffixes, vec![".part", ".crdownload", ".tmp"]);
    assert_eq!(c.bar_height, 57);
    assert_eq!(c.history_size, 5);
    assert_eq!(c.editor, "swappy -f");
    assert_eq!(c.menu_dismiss_seconds, 8);
    assert_eq!(c.drag_command, "builtin");
    let s = MenuStyle::default();
    assert_eq!(s.background, "rgba(30,30,46,0.95)");
    assert_eq!(s.text_color, "#cdd6f4");
    assert_eq!(s.secondary_color, "#a6adc8");
    assert_eq!(s.button_background, "rgba(255,255,255,0.08)");
    assert_eq!(s.button_hover, "rgba(255,255,255,0.15)");
    assert_eq!(s.border_radius, 12);
}

#[test]
fn actions() {
    let mut c = Config::default();
    assert!(c.has_action("drag"));
    assert!(c.has_action("copy"));
    assert!(!c.has_action("print"));
    assert!(!c.has_action("dra"));
    c.actions = vec![];
    assert!(!c.has_action("drag"));
}

#[test]
fn shared_files() {
    assert_eq!(Config::state_file("/run/user/1000"), "/run/user/1000/glance-latest.json");
    assert_eq!(Config::pid_file("/tmp/"), "/tmp/glance.pid");
    assert_eq!(Config::menu_lock_file("/tmp"), "/tmp/glance-menu.lock");
    assert_eq!(Config::menu_pos_file("/tmp"), "/tmp/glance-menu-pos");
    assert_eq!(join_path("", "x"), "x");
}

#[test]
fn watch_dirs_expand_home() {
    let mut c = Config::default();
    c.watch_dirs = vec!["~/Downloads".into(), "~".into(), "/abs/dir".into(), "~other/x".into(), "a~/b".into()];
    c.expand_watch_dirs(Some("/home/u"));
    assert_eq!(c.watch_dirs, vec!["/home/u/Downloads", "/home/u", "/abs/dir", "~other/x", "a~/b"]);
    let mut d = Config::default();
    d.expand_watch_dirs(None);
    assert_eq!(d.watch_dirs, vec!["~/Pictures/Screenshots", "~/Downloads"]);
}

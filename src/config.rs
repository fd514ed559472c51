//! Settings of the watcher and of the widget around it, their defaults, and
//! the files that the processes share.

use vstd::prelude::*;

verus! {

/// Colours and shape of the dropdown menu.
#[derive(Debug, Clone)]
pub struct MenuStyle {
    pub background: String,
    pub text_color: String,
    pub secondary_color: String,
    pub button_background: String,
    pub button_hover: String,
    pub border_radius: i32,
}

impl MenuStyle {
    fn default_background() -> (r: String)
        ensures
            r@ == "rgba(30,30,46,0.95)"@,
    {
        String::from_str("rgba(30,30,46,0.95)")
    }

    fn default_text_color() -> (r: String)
        ensures
            r@ == "#cdd6f4"@,
    {
        String::from_str("#cdd6f4")
    }

    fn default_secondary_color() -> (r: String)
        ensures
            r@ == "#a6adc8"@,
    {
        String::from_str("#a6adc8")
    }

    fn default_button_background() -> (r: String)
        ensures
            r@ == "rgba(255,255,255,0.08)"@,
    {
        String::from_str("rgba(255,255,255,0.08)")
    }

    fn default_button_hover() -> (r: String)
        ensures
            r@ == "rgba(255,255,255,0.15)"@,
    {
        String::from_str("rgba(255,255,255,0.15)")
    }

    fn default_border_radius() -> (r: i32)
        ensures
            r == 12,
    {
        12
    }
}

impl Default for MenuStyle {
    fn default() -> (r: Self)
        ensures
            r.background@ == "rgba(30,30,46,0.95)"@,
            r.text_color@ == "#cdd6f4"@,
            r.secondary_color@ == "#a6adc8"@,
            r.button_background@ == "rgba(255,255,255,0.08)"@,
            r.button_hover@ == "rgba(255,255,255,0.15)"@,
            r.border_radius == 12,
    {
        MenuStyle {
            background: Self::default_background(),
            text_color: Self::default_text_color(),
            secondary_color: Self::default_secondary_color(),
            button_background: Self::default_button_background(),
            button_hover: Self::default_button_hover(),
            border_radius: Self::default_border_radius(),
        }
    }
}

/// Settings read from the configuration file, each with its default.
#[derive(Debug, Clone)]
pub struct Config {
    /// Directories to watch; `~` stands for the home directory.
    pub watch_dirs: Vec<String>,
    /// Which real-time signal tells the status bar to refresh.
    pub signal_number: u8,
    /// How long, in seconds, a new file stays shown.
    pub dismiss_seconds: u64,
    /// Names ending in one of these are files still being written.
    pub ignore_suffixes: Vec<String>,
    pub bar_height: i32,
    /// How many files the history keeps.
    pub history_size: usize,
    pub editor: String,
    pub actions: Vec<String>,
    pub menu_dismiss_seconds: u64,
    pub drag_command: String,
    pub menu_style: MenuStyle,
}

fn default_watch_dirs() -> (r: Vec<String>)
    ensures
        r@.len() == 2,
        r@[0]@ == "~/Pictures/Screenshots"@,
        r@[1]@ == "~/Downloads"@,
{
    let mut v: Vec<String> = Vec::new();
    v.push(String::from_str("~/Pictures/Screenshots"));
    v.push(String::from_str("~/Downloads"));
    v
}

fn default_signal_number() -> (r: u8)
    ensures
        r == 8,
{
    8
}

fn default_dismiss_seconds() -> (r: u64)
    ensures
        r == 10,
{
    10
}

fn default_ignore_suffixes() -> (r: Vec<String>)
    ensures
        r@.len() == 3,
        r@[0]@ == ".part"@,
        r@[1]@ == ".crdownload"@,
        r@[2]@ == ".tmp"@,
{
    let mut v: Vec<String> = Vec::new();
    v.push(String::from_str(".part"));
    v.push(String::from_str(".crdownload"));
    v.push(String::from_str(".tmp"));
    v
}

fn default_bar_height() -> (r: i32)
    ensures
        r == 57,
{
    57
}

fn default_history_size() -> (r: usize)
    ensures
        r == 5,
{
    5
}

fn default_editor() -> (r: String)
    ensures
        r@ == "swappy -f"@,
{
    String::from_str("swappy -f")
}

fn default_actions() -> (r: Vec<String>)
    ensures
        r@.len() == 4,
        r@[0]@ == "drag"@,
        r@[1]@ == "open"@,
        r@[2]@ == "edit"@,
        r@[3]@ == "copy"@,
{
    let mut v: Vec<String> = Vec::new();
    v.push(String::from_str("drag"));
    v.push(String::from_str("open"));
    v.push(String::from_str("edit"));
    v.push(String::from_str("copy"));
    v
}

fn default_menu_dismiss_seconds() -> (r: u64)
    ensures
        r == 8,
{
    8
}

fn default_drag_command() -> (r: String)
    ensures
        r@ == "builtin"@,
{
    String::from_str("builtin")
}

impl Default for Config {
    fn default() -> (r: Self)
        ensures
            r.watch_dirs@.len() == 2,
            r.watch_dirs@[0]@ == "~/Pictures/Screenshots"@,
            r.watch_dirs@[1]@ == "~/Downloads"@,
            r.signal_number == 8,
            r.dismiss_seconds == 10,
            r.ignore_suffixes@.len() == 3,
            r.ignore_suffixes@[0]@ == ".part"@,
            r.ignore_suffixes@[1]@ == ".crdownload"@,
            r.ignore_suffixes@[2]@ == ".tmp"@,
            r.bar_height == 57,
            r.history_size == 5,
            r.editor@ == "swappy -f"@,
            r.actions@.len() == 4,
            r.actions@[0]@ == "drag"@,
            r.actions@[1]@ == "open"@,
            r.actions@[2]@ == "edit"@,
            r.actions@[3]@ == "copy"@,
            r.menu_dismiss_seconds == 8,
            r.drag_command@ == "builtin"@,
            r.menu_style.border_radius == 12,
    {
        Config {
            watch_dirs: default_watch_dirs(),
            signal_number: default_signal_number(),
            dismiss_seconds: default_dismiss_seconds(),
            ignore_suffixes: default_ignore_suffixes(),
            bar_height: default_bar_height(),
            history_size: default_history_size(),
            editor: default_editor(),
            actions: default_actions(),
            menu_dismiss_seconds: default_menu_dismiss_seconds(),
            drag_command: default_drag_command(),
            menu_style: MenuStyle::default(),
        }
    }
}

/// `name` under the directory `dir`, as a path join writes it.
pub open spec fn joined(dir: Seq<char>, name: Seq<char>) -> Seq<char> {
    if dir.len() == 0 {
        name
    } else if dir.last() == '/' {
        dir + name
    } else {
        dir + seq!['/'] + name
    }
}

/// The path of `name` under the directory `dir`.
pub fn join_path(dir: &str, name: &str) -> (r: String)
    ensures
        r@ == joined(dir@, name@),
{
    let n = dir.unicode_len();
    if n == 0 {
        return String::from_str(name);
    }
    let mut r = String::from_str(dir);
    if dir.get_char(n - 1) != '/' {
        proof {
            reveal_strlit("/");
        }
        r.append("/");
    }
    r.append(name);
    r
}

/// The path with a leading `~`, alone or before a `/`, replaced by `home`.
pub open spec fn tilde_expanded(path: Seq<char>, home: Seq<char>) -> Seq<char> {
    if path.len() > 0 && path[0] == '~' && (path.len() == 1 || path[1] == '/') {
        home + path.skip(1)
    } else {
        path
    }
}

/// Relies on shellexpand::tilde_with_context: with a home directory given, a
/// leading `~` that stands alone or before `/` becomes that directory and
/// every other input comes back unchanged.
#[verifier::external_body]
fn expand_tilde(path: &str, home: &str) -> (r: String)
    ensures
        r@ == tilde_expanded(path@, home@),
{
    shellexpand::tilde_with_context(path, || Some(home)).into_owned()
}

impl Config {
    /// Whether the menu offers the action `name`.
    pub fn has_action(&self, name: &str) -> (r: bool)
        ensures
            r == exists|i: int| 0 <= i < self.actions@.len() && #[trigger] self.actions@[i]@ == name@,
    {
        let n = self.actions.len();
        let mut i: usize = 0;
        while i < n
            invariant
                n == self.actions@.len(),
                i <= n,
                forall|j: int| 0 <= j < i ==> self.actions@[j]@ != name@,
            decreases n - i,
        {
            if crate::text::same_text(self.actions[i].as_str(), name) {
                return true;
            }
            i = i + 1;
        }
        false
    }

    /// The shared history document, under the runtime directory.
    pub fn state_file(runtime_dir: &str) -> (r: String)
        ensures
            r@ == joined(runtime_dir@, "glance-latest.json"@),
    {
        join_path(runtime_dir, "glance-latest.json")
    }

    /// The file that holds the watcher's process id, under the runtime directory.
    pub fn pid_file(runtime_dir: &str) -> (r: String)
        ensures
            r@ == joined(runtime_dir@, "glance.pid"@),
    {
        join_path(runtime_dir, "glance.pid")
    }

    /// The marker that an open menu holds, under the runtime directory.
    pub fn menu_lock_file(runtime_dir: &str) -> (r: String)
        ensures
            r@ == joined(runtime_dir@, "glance-menu.lock"@),
    {
        join_path(runtime_dir, "glance-menu.lock")
    }

    /// Where the menu keeps its last position, under the runtime directory.
    pub fn menu_pos_file(runtime_dir: &str) -> (r: String)
        ensures
            r@ == joined(runtime_dir@, "glance-menu-pos"@),
    {
        join_path(runtime_dir, "glance-menu-pos")
    }

    /// Write each watch directory with `~` replaced by `home`; without a home
    /// directory they stay as they are.
    pub fn expand_watch_dirs(&mut self, home: Option<&str>)
        ensures
            final(self).watch_dirs@.len() == old(self).watch_dirs@.len(),
            forall|i: int|
                0 <= i < old(self).watch_dirs@.len() ==> (#[trigger] final(self).watch_dirs@[i])@
                    == match home {
                    Some(h) => tilde_expanded(old(self).watch_dirs@[i]@, h@),
                    None => old(self).watch_dirs@[i]@,
                },
            final(self).signal_number == old(self).signal_number,
            final(self).dismiss_seconds == old(self).dismiss_seconds,
            final(self).ignore_suffixes == old(self).ignore_suffixes,
            final(self).bar_height == old(self).bar_height,
            final(self).history_size == old(self).history_size,
            final(self).editor == old(self).editor,
            final(self).actions == old(self).actions,
            final(self).menu_dismiss_seconds == old(self).menu_dismiss_seconds,
            final(self).drag_command == old(self).drag_command,
            final(self).menu_style == old(self).menu_style,
    {
        let h = match home {
            Some(h) => h,
            None => return,
        };
        let n = self.watch_dirs.len();
        let mut dirs: Vec<String> = Vec::new();
        let mut i: usize = 0;
        while i < n
            invariant
                n == self.watch_dirs@.len(),
                self == old(self),
                i <= n,
                dirs@.len() == i,
                forall|j: int|
                    0 <= j < i ==> (#[trigger] dirs@[j])@ == tilde_expanded(self.watch_dirs@[j]@, h@),
            decreases n - i,
        {
            let d = expand_tilde(self.watch_dirs[i].as_str(), h);
            dirs.push(d);
            i = i + 1;
        }
        self.watch_dirs = dirs;
    }
}

} // verus!

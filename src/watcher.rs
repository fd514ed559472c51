//! The decisions of the directory watcher. The process that runs it reads
//! the change notifications, looks at the file system and signals the widget;
//! what it does with each event and each tick is decided here.

use crate::config::{join_path, joined};
use crate::dedup::{holds_path, inserted, SeenCache};
use crate::history::{applied, FileState, FileStateV, HistoryV, Mutation};
use crate::text::{ends_with, is_suffix, starts_with};
use vstd::prelude::*;

verus! {

/// A change notification from a watched directory, as plain values.
#[derive(Debug)]
pub struct DirEvent {
    /// A file opened for writing was closed.
    pub closed_after_write: bool,
    /// A file was moved or renamed into the directory.
    pub moved_in: bool,
    /// The watched directory that reported it, if it is known.
    pub dir: Option<String>,
    /// The name of the file within that directory.
    pub name: Option<String>,
}

/// A name that the watcher passes over: a hidden file, or one whose name ends
/// in one of `suffixes` (a file still being written).
pub open spec fn ignored_name(name: Seq<char>, suffixes: Seq<String>) -> bool {
    (name.len() > 0 && name[0] == '.') || exists|i: int|
        0 <= i < suffixes.len() && is_suffix(#[trigger] suffixes[i]@, name)
}

/// The path that an event may bring a finished file at: the event is of one
/// of the two kinds, its name is not ignored, and its directory is known.
pub open spec fn candidate_of(ev: DirEvent, suffixes: Seq<String>) -> Option<Seq<char>> {
    if !(ev.closed_after_write || ev.moved_in) {
        None
    } else {
        match (ev.name, ev.dir) {
            (Some(name), Some(dir)) => if ignored_name(name@, suffixes) {
                None
            } else {
                Some(joined(dir@, name@))
            },
            _ => None,
        }
    }
}

/// Whether the watcher passes over a file named `name`.
pub fn is_ignored_name(name: &str, suffixes: &Vec<String>) -> (r: bool)
    ensures
        r == ignored_name(name@, suffixes@),
{
    proof {
        reveal_strlit(".");
        assert("."@ =~= seq!['.']);
        if name@.len() > 0 {
            assert(name@.subrange(0, 1) =~= seq![name@[0]]);
        }
    }
    if starts_with(name, ".") {
        assert(name@.subrange(0, 1)[0] == '.');
        return true;
    }
    let n = suffixes.len();
    let mut i: usize = 0;
    while i < n
        invariant
            n == suffixes@.len(),
            i <= n,
            !(name@.len() > 0 && name@[0] == '.'),
            forall|j: int| 0 <= j < i ==> !is_suffix(#[trigger] suffixes@[j]@, name@),
        decreases n - i,
    {
        if ends_with(name, suffixes[i].as_str()) {
            return true;
        }
        i = i + 1;
    }
    false
}

/// The path that an event may bring a finished file at, if any.
pub fn candidate_path(ev: &DirEvent, suffixes: &Vec<String>) -> (r: Option<String>)
    ensures
        match r {
            Some(p) => candidate_of(*ev, suffixes@) == Some(p@),
            None => candidate_of(*ev, suffixes@) is None,
        },
{
    if !(ev.closed_after_write || ev.moved_in) {
        return None;
    }
    match (&ev.name, &ev.dir) {
        (Some(name), Some(dir)) => {
            if is_ignored_name(name.as_str(), suffixes) {
                None
            } else {
                Some(join_path(dir.as_str(), name.as_str()))
            }
        },
        _ => None,
    }
}

/// The watcher's memory between events: the paths seen recently and the
/// time, in milliseconds, at which the widget is to be dismissed.
pub struct Watcher {
    pub seen: SeenCache,
    pub dismiss_at: Option<u64>,
}

impl Watcher {
    pub open spec fn wf(&self) -> bool {
        self.seen.wf()
    }

    /// A watcher that has seen nothing and has no dismissal pending.
    pub fn new() -> (r: Watcher)
        ensures
            r.wf(),
            r.seen@ == Seq::<crate::dedup::SeenV>::empty(),
            r.dismiss_at is None,
    {
        Watcher { seen: SeenCache::new(), dismiss_at: None }
    }

    /// A tick at `now_ms`. If a dismissal is due it is cleared, and the widget
    /// is to be dismissed unless an open menu holds the user's attention; that
    /// dismissal is then skipped, not put off.
    pub fn check_dismiss(&mut self, now_ms: u64, menu_open: bool) -> (fire: bool)
        ensures
            final(self).seen == old(self).seen,
            match old(self).dismiss_at {
                Some(at) => if now_ms >= at {
                    &&& final(self).dismiss_at is None
                    &&& fire == !menu_open
                } else {
                    &&& final(self).dismiss_at == old(self).dismiss_at
                    &&& !fire
                },
                None => final(self).dismiss_at is None && !fire,
            },
    {
        match self.dismiss_at {
            Some(at) => {
                if now_ms >= at {
                    self.dismiss_at = None;
                    !menu_open
                } else {
                    false
                }
            },
            None => false,
        }
    }

    /// A candidate path at `now_ms`; `size` is its size if it is a regular
    /// file and `None` if it is not one. A regular file that was not seen
    /// recently is recorded as seen and becomes a push of a new entry;
    /// anything else is passed over and changes nothing.
    pub fn on_candidate(&mut self, path: String, size: Option<u64>, now_ms: u64, max_size: usize) -> (r:
        Option<Mutation>)
        requires
            old(self).wf(),
        ensures
            final(self).wf(),
            final(self).dismiss_at == old(self).dismiss_at,
            (size is Some && !holds_path(old(self).seen@, path@)) ==> {
                &&& final(self).seen@ == inserted(old(self).seen@, path@, (now_ms / 1000) as u64)
                &&& r is Some
                &&& r->0 matches Mutation::Push { entry, max_size: m } && m == max_size
                    && entry@.path == path@ && entry@.name == crate::text::base_name(path@)
                    && entry@.size == size->0 && entry@.time_ms == now_ms
            },
            !(size is Some && !holds_path(old(self).seen@, path@)) ==> {
                &&& final(self).seen@ == old(self).seen@
                &&& r is None
            },
    {
        let size = match size {
            Some(s) => s,
            None => return None,
        };
        if self.seen.contains(path.as_str()) {
            return None;
        }
        self.seen.insert(path.clone(), now_ms / 1000);
        Some(Mutation::Push { entry: FileState::new(path, size, now_ms), max_size })
    }

    /// A push was stored at `now_ms`: the widget is to be dismissed
    /// `dismiss_seconds` later.
    pub fn on_pushed(&mut self, now_ms: u64, dismiss_seconds: u64)
        ensures
            final(self).seen == old(self).seen,
            final(self).dismiss_at == Some(
                if now_ms + dismiss_seconds * 1000 <= u64::MAX {
                    (now_ms + dismiss_seconds * 1000) as u64
                } else {
                    u64::MAX
                },
            ),
    {
        if dismiss_seconds > (u64::MAX - now_ms) / 1000 {
            assert(now_ms + dismiss_seconds * 1000 > u64::MAX) by (nonlinear_arith)
                requires
                    dismiss_seconds > (u64::MAX - now_ms) / 1000,
            ;
            self.dismiss_at = Some(u64::MAX);
        } else {
            assert(now_ms + dismiss_seconds * 1000 <= u64::MAX) by (nonlinear_arith)
                requires
                    dismiss_seconds <= (u64::MAX - now_ms) / 1000,
            ;
            self.dismiss_at = Some(now_ms + dismiss_seconds * 1000);
        }
    }
}

/// The push that `on_candidate` gives for a new regular file, once stored,
/// puts that file first with its path, name, size and time, selects it, and
/// leaves as many entries as the bound allows.
pub proof fn lemma_new_file_push(
    h: HistoryV,
    m: Mutation,
    path: Seq<char>,
    size: u64,
    now_ms: u64,
    max_size: usize,
)
    requires
        m matches Mutation::Push { entry, max_size: k } && k == max_size && entry@.path == path
            && entry@.name == crate::text::base_name(path) && entry@.size == size
            && entry@.time_ms == now_ms,
        max_size > 0,
    ensures
        applied(h, m).entries[0] == (FileStateV {
            path,
            name: crate::text::base_name(path),
            size,
            time_ms: now_ms,
        }),
        applied(h, m).selected == 0,
        applied(h, m).entries.len() == if h.entries.len() + 1 <= max_size {
            h.entries.len() + 1
        } else {
            max_size as nat
        },
{
}

} // verus!

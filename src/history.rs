//! The history of discovered files: a bounded, newest-first list with a
//! selection cursor.

use vstd::prelude::*;

verus! {

/// What a discovered file is, as plain values.
pub struct FileStateV {
    pub path: Seq<char>,
    pub name: Seq<char>,
    pub size: u64,
    pub time_ms: u64,
}

/// A file found by the watcher: its absolute path, its base name, its size
/// when it was found, and when it was found (milliseconds since the epoch).
#[derive(Debug)]
pub struct FileState {
    pub path: String,
    pub name: String,
    pub size: u64,
    pub time_ms: u64,
}

impl Clone for FileState {
    fn clone(&self) -> (r: Self)
        ensures
            r@ == self@,
    {
        FileState {
            path: self.path.clone(),
            name: self.name.clone(),
            size: self.size,
            time_ms: self.time_ms,
        }
    }
}

impl View for FileState {
    type V = FileStateV;

    open spec fn view(&self) -> FileStateV {
        FileStateV { path: self.path@, name: self.name@, size: self.size, time_ms: self.time_ms }
    }
}

/// The history as plain values.
pub struct HistoryV {
    pub entries: Seq<FileStateV>,
    pub selected: nat,
}

/// Recently discovered files, most recent first, and the position that the
/// widget shows (0 is the newest).
#[derive(Debug)]
pub struct HistoryState {
    pub entries: Vec<FileState>,
    pub selected: usize,
}

pub open spec fn views_of(entries: Seq<FileState>) -> Seq<FileStateV> {
    entries.map_values(|e: FileState| e@)
}

impl View for HistoryState {
    type V = HistoryV;

    open spec fn view(&self) -> HistoryV {
        HistoryV { entries: views_of(self.entries@), selected: self.selected as nat }
    }
}

/// The history after `entry` is pushed with bound `max_size`.
pub open spec fn pushed(h: HistoryV, entry: FileStateV, max_size: nat) -> HistoryV {
    let all = seq![entry] + h.entries;
    HistoryV {
        entries: if all.len() <= max_size { all } else { all.take(max_size as int) },
        selected: 0,
    }
}

/// The history after the selection moves one step toward older entries.
pub open spec fn moved_older(h: HistoryV) -> HistoryV {
    if h.entries.len() == 0 {
        h
    } else if h.selected + 1 <= h.entries.len() - 1 {
        HistoryV { selected: h.selected + 1, ..h }
    } else {
        HistoryV { selected: (h.entries.len() - 1) as nat, ..h }
    }
}

/// The history after the selection moves one step toward newer entries.
pub open spec fn moved_newer(h: HistoryV) -> HistoryV {
    if h.selected > 0 {
        HistoryV { selected: (h.selected - 1) as nat, ..h }
    } else {
        h
    }
}

impl FileState {
    /// A file found at `path`, of `size` bytes, at `time_ms`. Its name is the
    /// file name of the path (empty when the path has none).
    pub fn new(path: String, size: u64, time_ms: u64) -> (r: FileState)
        ensures
            r@.path == path@,
            r@.name == crate::text::base_name(path@),
            r.size == size,
            r.time_ms == time_ms,
    {
        let name = crate::text::file_name(path.as_str());
        FileState { path, name, size, time_ms }
    }

    /// Whether the entry is past its display time: more than `dismiss_secs`
    /// seconds and two of grace have passed since it was found.
    pub fn is_expired(&self, now_ms: u64, dismiss_secs: u64) -> (r: bool)
        ensures
            r == expired_at(self.time_ms, now_ms, dismiss_secs),
    {
        if now_ms <= self.time_ms {
            return false;
        }
        let age = now_ms - self.time_ms;
        let limit: u64 = (u64::MAX - 2000) / 1000;
        if dismiss_secs > limit {
            assert((dismiss_secs + 2) * 1000 > u64::MAX) by (nonlinear_arith)
                requires
                    dismiss_secs > limit,
                    limit == (u64::MAX - 2000) / 1000,
            ;
            return false;
        }
        assert((dismiss_secs + 2) * 1000 <= u64::MAX) by (nonlinear_arith)
            requires
                dismiss_secs <= limit,
                limit == (u64::MAX - 2000) / 1000,
        ;
        age > (dismiss_secs + 2) * 1000
    }
}

impl HistoryState {
    /// The empty history.
    pub fn new() -> (r: HistoryState)
        ensures
            r@.entries.len() == 0,
            r@.selected == 0,
    {
        HistoryState { entries: Vec::new(), selected: 0 }
    }

    /// The entry at the selection, if the selection is in range.
    pub fn current(&self) -> (r: Option<&FileState>)
        ensures
            self.selected < self.entries.len() ==> r == Some(&self.entries@[self.selected as int]),
            self.selected >= self.entries.len() ==> r is None,
    {
        if self.selected < self.entries.len() {
            Some(&self.entries[self.selected])
        } else {
            None
        }
    }

    /// Put `entry` first, keep at most `max_size` entries and select the newest.
    pub fn push(&mut self, entry: FileState, max_size: usize)
        ensures
            final(self)@ == pushed(old(self)@, entry@, max_size as nat),
    {
        let ghost e = entry;
        self.entries.insert(0, entry);
        self.entries.truncate(max_size);
        self.selected = 0;
        proof {
            let all = seq![e] + old(self).entries@;
            assert(views_of(all) =~= seq![e@] + old(self)@.entries);
            if all.len() > max_size {
                assert(views_of(all.take(max_size as int)) =~= views_of(all).take(max_size as int));
            }
            assert(final(self)@.entries =~= pushed(old(self)@, e@, max_size as nat).entries);
        }
    }

    /// Move the selection one step toward older entries, no further than the oldest.
    pub fn select_prev(&mut self)
        ensures
            final(self)@ == moved_older(old(self)@),
    {
        let n = self.entries.len();
        if n > 0 {
            if self.selected < n - 1 {
                self.selected = self.selected + 1;
            } else {
                self.selected = n - 1;
            }
        }
    }

    /// Move the selection one step toward newer entries, no further than the newest.
    pub fn select_next(&mut self)
        ensures
            final(self)@ == moved_newer(old(self)@),
    {
        if self.selected > 0 {
            self.selected = self.selected - 1;
        }
    }
}

/// A change to the history, as the store applies it under its exclusive lock.
#[derive(Debug)]
pub enum Mutation {
    /// Put a newly found file first, keeping at most `max_size` entries.
    Push { entry: FileState, max_size: usize },
    /// Move the selection toward older entries.
    SelectPrev,
    /// Move the selection toward newer entries.
    SelectNext,
}

/// The history after the change `m`.
pub open spec fn applied(h: HistoryV, m: Mutation) -> HistoryV {
    match m {
        Mutation::Push { entry, max_size } => pushed(h, entry@, max_size as nat),
        Mutation::SelectPrev => moved_older(h),
        Mutation::SelectNext => moved_newer(h),
    }
}

impl HistoryState {
    /// Apply the change `m`.
    pub fn apply(&mut self, m: Mutation)
        ensures
            final(self)@ == applied(old(self)@, m),
    {
        match m {
            Mutation::Push { entry, max_size } => self.push(entry, max_size),
            Mutation::SelectPrev => self.select_prev(),
            Mutation::SelectNext => self.select_next(),
        }
    }
}

/// The history after `files` are pushed in order, each with bound `max_size`.
pub open spec fn pushed_all(h: HistoryV, files: Seq<FileStateV>, max_size: nat) -> HistoryV
    decreases files.len(),
{
    if files.len() == 0 {
        h
    } else {
        pushed(pushed_all(h, files.drop_last(), max_size), files.last(), max_size)
    }
}

/// The selection is in range whenever there are entries.
pub open spec fn selection_in_range(h: HistoryV) -> bool {
    h.entries.len() > 0 ==> h.selected < h.entries.len()
}

/// After pushing `files` into an empty history with bound `max_size`, the
/// history holds as many entries as were pushed, at most `max_size`, and the
/// first entry is the last file pushed.
pub proof fn lemma_history_bound(files: Seq<FileStateV>, max_size: nat)
    ensures
        pushed_all(HistoryV { entries: Seq::empty(), selected: 0 }, files, max_size).entries.len()
            == if files.len() <= max_size { files.len() } else { max_size },
        files.len() > 0 && max_size > 0 ==> pushed_all(
            HistoryV { entries: Seq::empty(), selected: 0 },
            files,
            max_size,
        ).entries[0] == files.last(),
    decreases files.len(),
{
    if files.len() > 0 {
        lemma_history_bound(files.drop_last(), max_size);
    }
}

/// Moving the selection toward older entries never passes the oldest one;
/// moving it toward newer entries stops at the newest; a push selects the
/// newest. Each of them keeps a selection that is in range in range.
pub proof fn lemma_selection_clamp(h: HistoryV, entry: FileStateV, max_size: nat)
    ensures
        h.entries.len() > 0 ==> moved_older(h).selected <= h.entries.len() - 1,
        moved_newer(h).selected == if h.selected > 0 { h.selected - 1 } else { 0 },
        pushed(h, entry, max_size).selected == 0,
        selection_in_range(h) ==> selection_in_range(moved_older(h)),
        selection_in_range(h) ==> selection_in_range(moved_newer(h)),
        selection_in_range(pushed(h, entry, max_size)),
{
}

/// Two changes made one after the other under the store's lock, a push and a
/// move of the selection, lose neither: in either order the entries are those
/// of the push alone, with the pushed file first (none with a bound of 0);
/// when the move comes last its effect stands, and when the push comes last
/// it selects the newest.
pub proof fn lemma_push_and_scroll_serialize(
    h: HistoryV,
    entry: FileStateV,
    max_size: nat,
    toward_older: bool,
)
    ensures
        ({
            let p = pushed(h, entry, max_size);
            let scroll_last = if toward_older { moved_older(p) } else { moved_newer(p) };
            let scrolled = if toward_older { moved_older(h) } else { moved_newer(h) };
            let push_last = pushed(scrolled, entry, max_size);
            &&& scroll_last.entries == p.entries
            &&& push_last.entries == p.entries
            &&& max_size > 0 ==> p.entries[0] == entry
            &&& max_size == 0 ==> p.entries.len() == 0
            &&& scroll_last.selected == (if toward_older && p.entries.len() > 1 { 1nat } else { 0nat })
            &&& push_last.selected == 0
        }),
{
}

/// Whether an entry found at `time_ms` is past its display time at `now_ms`.
pub open spec fn expired_at(time_ms: u64, now_ms: u64, dismiss_secs: u64) -> bool {
    now_ms - time_ms > (dismiss_secs + 2) * 1000
}

/// How many of `entries` are still within their display time.
pub open spec fn live_count(entries: Seq<FileStateV>, now_ms: u64, dismiss_secs: u64) -> nat
    decreases entries.len(),
{
    if entries.len() == 0 {
        0
    } else {
        live_count(entries.drop_last(), now_ms, dismiss_secs) + if expired_at(
            entries.last().time_ms,
            now_ms,
            dismiss_secs,
        ) {
            0nat
        } else {
            1nat
        }
    }
}

proof fn lemma_live_count_bound(entries: Seq<FileStateV>, now_ms: u64, dismiss_secs: u64)
    ensures
        live_count(entries, now_ms, dismiss_secs) <= entries.len(),
    decreases entries.len(),
{
    if entries.len() > 0 {
        lemma_live_count_bound(entries.drop_last(), now_ms, dismiss_secs);
    }
}

impl HistoryState {
    /// The entry the widget shows at `now_ms`: the selected one, while it is
    /// within its display time or once the user has scrolled away from the
    /// newest.
    pub fn displayed(&self, now_ms: u64, dismiss_secs: u64) -> (r: Option<&FileState>)
        ensures
            match r {
                Some(e) => {
                    &&& self.selected < self.entries@.len()
                    &&& *e == self.entries@[self.selected as int]
                    &&& (self.selected != 0 || !expired_at(e.time_ms, now_ms, dismiss_secs))
                },
                None => self.selected >= self.entries@.len() || (self.selected == 0 && expired_at(
                    self.entries@[0].time_ms,
                    now_ms,
                    dismiss_secs,
                )),
            },
    {
        match self.current() {
            Some(e) => {
                if self.selected != 0 || !e.is_expired(now_ms, dismiss_secs) {
                    Some(e)
                } else {
                    None
                }
            },
            None => None,
        }
    }

    /// How many entries are within their display time at `now_ms`.
    pub fn live_entries(&self, now_ms: u64, dismiss_secs: u64) -> (r: usize)
        ensures
            r == live_count(self@.entries, now_ms, dismiss_secs),
    {
        let n = self.entries.len();
        let mut count: usize = 0;
        let mut i: usize = 0;
        while i < n
            invariant
                n == self.entries@.len(),
                i <= n,
                count == live_count(self@.entries.take(i as int), now_ms, dismiss_secs),
            decreases n - i,
        {
            let ghost t = self@.entries.take(i + 1);
            assert(t.drop_last() =~= self@.entries.take(i as int));
            proof {
                lemma_live_count_bound(self@.entries.take(i as int), now_ms, dismiss_secs);
            }
            if !self.entries[i].is_expired(now_ms, dismiss_secs) {
                count = count + 1;
            }
            i = i + 1;
        }
        assert(self@.entries.take(n as int) =~= self@.entries);
        count
    }
}

/// The change that a scroll of the widget asks for: `up` moves toward older
/// entries, `down` toward newer ones, and any other word asks for none.
pub fn scroll_mutation(direction: &str) -> (r: Option<Mutation>)
    ensures
        direction@ == "up"@ ==> r == Some(Mutation::SelectPrev),
        direction@ == "down"@ ==> r == Some(Mutation::SelectNext),
        direction@ != "up"@ && direction@ != "down"@ ==> r is None,
{
    proof {
        reveal_strlit("up");
        reveal_strlit("down");
        assert("up"@.len() != "down"@.len());
    }
    if crate::text::same_text(direction, "up") {
        Some(Mutation::SelectPrev)
    } else if crate::text::same_text(direction, "down") {
        Some(Mutation::SelectNext)
    } else {
        None
    }
}

} // verus!

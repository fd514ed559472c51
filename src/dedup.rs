//! A time-bounded record of the paths seen recently, used to suppress the
//! repeated signals that one multi-step write produces.

use std::collections::VecDeque;
use vstd::prelude::*;

verus! {

/// How many paths the record holds at most.
pub const MAX_SEEN: usize = 1000;

/// How long, in seconds, a path stays in the record.
pub const SEEN_TTL: u64 = 3600;

/// A record entry as plain values: a path and when it was recorded.
pub type SeenV = (Seq<char>, u64);

/// Whether an entry recorded at `ts` has outlived the window at `now`.
pub open spec fn is_stale(ts: u64, now: u64) -> bool {
    now - ts > SEEN_TTL
}

/// How many entries at the front of `s` are stale at `now`, up to the first
/// one that is not.
pub open spec fn stale_prefix(s: Seq<SeenV>, now: u64) -> nat
    decreases s.len(),
{
    if s.len() == 0 || !is_stale(s[0].1, now) {
        0
    } else {
        1 + stale_prefix(s.drop_first(), now)
    }
}

/// The record after stale front entries are dropped.
pub open spec fn evicted(s: Seq<SeenV>, now: u64) -> Seq<SeenV> {
    s.skip(stale_prefix(s, now) as int)
}

/// The record after `path` is inserted at `now`: stale front entries go, then
/// the oldest one if the record is still full, and the path joins at the back.
pub open spec fn inserted(s: Seq<SeenV>, path: Seq<char>, now: u64) -> Seq<SeenV> {
    let e = evicted(s, now);
    let kept = if e.len() >= MAX_SEEN { e.drop_first() } else { e };
    kept.push((path, now))
}

/// Whether `path` is among the entries of `s`.
pub open spec fn holds_path(s: Seq<SeenV>, path: Seq<char>) -> bool {
    exists|i: int| 0 <= i < s.len() && #[trigger] s[i].0 == path
}

proof fn lemma_stale_prefix_bound(s: Seq<SeenV>, now: u64)
    ensures
        stale_prefix(s, now) <= s.len(),
    decreases s.len(),
{
    if s.len() > 0 && is_stale(s[0].1, now) {
        lemma_stale_prefix_bound(s.drop_first(), now);
    }
}

/// The paths seen recently, oldest first.
pub struct SeenCache {
    entries: VecDeque<(String, u64)>,
}

impl View for SeenCache {
    type V = Seq<SeenV>;

    closed spec fn view(&self) -> Seq<SeenV> {
        self.entries@.map_values(|e: (String, u64)| (e.0@, e.1))
    }
}

impl SeenCache {
    /// The record never holds more than its capacity.
    pub closed spec fn wf(&self) -> bool {
        self.entries@.len() <= MAX_SEEN
    }

    /// An empty record.
    pub fn new() -> (r: SeenCache)
        ensures
            r.wf(),
            r@ == Seq::<SeenV>::empty(),
    {
        let r = SeenCache { entries: VecDeque::with_capacity(MAX_SEEN) };
        assert(r@ =~= Seq::<SeenV>::empty());
        r
    }

    /// How many paths the record holds.
    pub fn len(&self) -> (r: usize)
        ensures
            r == self@.len(),
    {
        self.entries.len()
    }

    /// Record `path` as seen at `now` (seconds since the epoch).
    pub fn insert(&mut self, path: String, now: u64)
        requires
            old(self).wf(),
        ensures
            final(self).wf(),
            final(self)@ == inserted(old(self)@, path@, now),
    {
        let ghost s0 = self@;
        let ghost k: int = 0;
        proof {
            lemma_stale_prefix_bound(s0, now);
            assert(s0.skip(0) =~= s0);
        }
        loop
            invariant
                self.wf(),
                0 <= k <= s0.len(),
                self@ == s0.skip(k),
                stale_prefix(s0, now) == k + stale_prefix(s0.skip(k), now),
            ensures
                self.wf(),
                self@ == s0.skip(k),
                stale_prefix(s0, now) == k,
            decreases self@.len(),
        {
            let stale = if self.entries.len() > 0 {
                let ts = self.entries[0].1;
                now >= ts && now - ts > SEEN_TTL
            } else {
                false
            };
            proof {
                if self@.len() > 0 {
                    assert(self@[0].1 == self.entries@[0].1);
                }
            }
            if !stale {
                break;
            }
            let ghost before = self@;
            self.entries.pop_front();
            proof {
                assert(before.drop_first() =~= s0.skip(k + 1));
                assert(self@ =~= before.drop_first());
                k = k + 1;
            }
        }
        proof {
            assert(self@ == evicted(s0, now));
        }
        let ghost e = self@;
        if self.entries.len() >= MAX_SEEN {
            self.entries.pop_front();
            assert(self@ =~= e.drop_first());
        }
        let ghost kept = self@;
        let ghost p = path@;
        self.entries.push_back((path, now));
        assert(self@ =~= kept.push((p, now)));
    }

    /// Whether `path` is in the record.
    pub fn contains(&self, path: &str) -> (r: bool)
        ensures
            r == holds_path(self@, path@),
    {
        let n = self.entries.len();
        let mut i: usize = 0;
        while i < n
            invariant
                n == self@.len(),
                i <= n,
                forall|j: int| 0 <= j < i ==> self@[j].0 != path@,
            decreases n - i,
        {
            if crate::text::same_text(self.entries[i].0.as_str(), path) {
                assert(self@[i as int].0 == path@);
                return true;
            }
            i = i + 1;
        }
        false
    }
}

/// A path that was just recorded is in the record, and recording it again
/// keeps it there: a second signal for it is recognised as a repeat.
pub proof fn lemma_insert_then_contains(s: Seq<SeenV>, path: Seq<char>, now1: u64, now2: u64)
    ensures
        holds_path(inserted(s, path, now1), path),
        holds_path(inserted(inserted(s, path, now1), path, now2), path),
{
    let s1 = inserted(s, path, now1);
    assert(s1[s1.len() - 1].0 == path);
    let s2 = inserted(s1, path, now2);
    assert(s2[s2.len() - 1].0 == path);
}

/// The record after each of `others` (a path and a time) is inserted in turn.
pub open spec fn inserted_all(s: Seq<SeenV>, others: Seq<SeenV>) -> Seq<SeenV>
    decreases others.len(),
{
    if others.len() == 0 {
        s
    } else {
        inserted(inserted_all(s, others.drop_last()), others.last().0, others.last().1)
    }
}

proof fn lemma_stale_prefix_before(s: Seq<SeenV>, now: u64, i: int)
    requires
        0 <= i < s.len(),
        !is_stale(s[i].1, now),
    ensures
        stale_prefix(s, now) <= i,
    decreases s.len(),
{
    if s.len() > 0 && is_stale(s[0].1, now) {
        lemma_stale_prefix_before(s.drop_first(), now, i - 1);
    }
}

/// An entry that is not stale at `now`, with fewer than the capacity of
/// entries from it to the back, stays through one insertion and has one more
/// entry behind it.
proof fn lemma_entry_kept(s: Seq<SeenV>, i: int, path: Seq<char>, now: u64) -> (j: int)
    requires
        0 <= i < s.len(),
        !is_stale(s[i].1, now),
        s.len() - i < MAX_SEEN,
    ensures
        0 <= j < inserted(s, path, now).len(),
        inserted(s, path, now)[j] == s[i],
        inserted(s, path, now).len() - j == s.len() - i + 1,
{
    lemma_stale_prefix_before(s, now, i);
    let k = stale_prefix(s, now) as int;
    let e = evicted(s, now);
    assert(e[i - k] == s[i]);
    if e.len() >= MAX_SEEN {
        assert(e.drop_first()[i - k - 1] == s[i]);
        i - k - 1
    } else {
        i - k
    }
}

proof fn lemma_recorded_entry_index(s: Seq<SeenV>, path: Seq<char>, t: u64, others: Seq<SeenV>) -> (i: int)
    requires
        others.len() < MAX_SEEN,
        forall|k: int| 0 <= k < others.len() ==> (#[trigger] others[k]).1 <= t + SEEN_TTL,
    ensures
        0 <= i < inserted_all(inserted(s, path, t), others).len(),
        inserted_all(inserted(s, path, t), others)[i] == (path, t),
        inserted_all(inserted(s, path, t), others).len() - i == others.len() + 1,
    decreases others.len(),
{
    if others.len() == 0 {
        inserted(s, path, t).len() - 1
    } else {
        let rest = others.drop_last();
        assert forall|k: int| 0 <= k < rest.len() implies (#[trigger] rest[k]).1 <= t + SEEN_TTL by {
            assert(rest[k] == others[k]);
        }
        let i0 = lemma_recorded_entry_index(s, path, t, rest);
        let prev = inserted_all(inserted(s, path, t), rest);
        assert(others.last() == others[others.len() - 1]);
        lemma_entry_kept(prev, i0, others.last().0, others.last().1)
    }
}

/// A path recorded at `t` is still in the record after fewer than
/// `MAX_SEEN` other insertions made at most `SEEN_TTL` seconds after `t`:
/// a repeat signal for it within the window is recognised as a repeat.
pub proof fn lemma_recorded_path_survives(s: Seq<SeenV>, path: Seq<char>, t: u64, others: Seq<SeenV>)
    requires
        others.len() < MAX_SEEN,
        forall|k: int| 0 <= k < others.len() ==> (#[trigger] others[k]).1 <= t + SEEN_TTL,
    ensures
        holds_path(inserted_all(inserted(s, path, t), others), path),
{
    let i = lemma_recorded_entry_index(s, path, t, others);
    assert(inserted_all(inserted(s, path, t), others)[i].0 == path);
}

} // verus!

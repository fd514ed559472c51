//! What the status bar shows of the history: the selected entry while it is
//! within its display time, how many entries are, and a tooltip that lists
//! them.

use crate::history::{expired_at, live_count, FileStateV, HistoryState};
use crate::number::{digits_of, format_integer};
use crate::util::{human_size, size_text};
use vstd::prelude::*;

verus! {

/// A name as the bar shows it: up to 18 characters whole, else its first 15
/// and an ellipsis.
pub open spec fn short_name(name: Seq<char>) -> Seq<char> {
    if name.len() > 18 {
        name.take(15).push('\u{2026}')
    } else {
        name
    }
}

/// ` (position/count)` when more than one entry is live, else nothing.
pub open spec fn count_suffix(selected: nat, live: nat) -> Seq<char> {
    if live > 1 {
        seq![' ', '('] + digits_of(selected + 1) + seq!['/'] + digits_of(live) + seq![')']
    } else {
        Seq::empty()
    }
}

/// One line of the tooltip: a marker on the selected entry, its name and size.
pub open spec fn tooltip_line(e: FileStateV, marked: bool) -> Seq<char> {
    seq![if marked { '\u{25b8}' } else { ' ' }, ' '] + e.name + seq![' ', '('] + size_text(
        e.size as nat,
    ) + seq![')']
}

/// The tooltip lines of the live entries among `entries`, in order.
pub open spec fn tooltip_lines(
    entries: Seq<FileStateV>,
    selected: nat,
    now_ms: u64,
    dismiss_secs: u64,
) -> Seq<Seq<char>>
    decreases entries.len(),
{
    if entries.len() == 0 {
        Seq::empty()
    } else {
        let rest = tooltip_lines(entries.drop_last(), selected, now_ms, dismiss_secs);
        let i = entries.len() - 1;
        if expired_at(entries.last().time_ms, now_ms, dismiss_secs) {
            rest
        } else {
            rest.push(tooltip_line(entries.last(), i == selected))
        }
    }
}

/// Lines joined with a newline between each two.
pub open spec fn joined_lines(lines: Seq<Seq<char>>) -> Seq<char>
    decreases lines.len(),
{
    if lines.len() == 0 {
        Seq::empty()
    } else if lines.len() == 1 {
        lines[0]
    } else {
        joined_lines(lines.drop_last()) + seq!['\n'] + lines.last()
    }
}

/// What the bar shows.
pub struct StatusLine {
    /// Whether an entry is shown.
    pub active: bool,
    pub text: String,
    pub tooltip: String,
}

fn name_for_bar(name: &str) -> (r: String)
    ensures
        r@ == short_name(name@),
{
    if name.unicode_len() > 18 {
        let mut s = String::from_str(name.substring_char(0, 15));
        proof {
            reveal_strlit("\u{2026}");
            assert("\u{2026}"@ =~= seq!['\u{2026}']);
        }
        s.append("\u{2026}");
        assert(s@ =~= short_name(name@));
        s
    } else {
        String::from_str(name)
    }
}

/// The bar's line for `h` at `now_ms`; `index`, when given, stands for the
/// selection. It shows the entry there if that entry is within its display
/// time, and is empty otherwise.
pub fn status_line(h: &HistoryState, index: Option<usize>, now_ms: u64, dismiss_secs: u64) -> (r:
    StatusLine)
    ensures
        ({
            let sel = match index {
                Some(i) => i,
                None => h.selected,
            };
            if sel < h@.entries.len() && !expired_at(h@.entries[sel as int].time_ms, now_ms, dismiss_secs) {
                &&& r.active
                &&& r.text@ == seq![' '] + short_name(h@.entries[sel as int].name) + count_suffix(
                    sel as nat,
                    live_count(h@.entries, now_ms, dismiss_secs),
                )
                &&& r.tooltip@ == joined_lines(
                    tooltip_lines(h@.entries, sel as nat, now_ms, dismiss_secs),
                )
            } else {
                &&& !r.active
                &&& r.text@ == Seq::<char>::empty()
                &&& r.tooltip@ == Seq::<char>::empty()
            }
        }),
{
    let sel = match index {
        Some(i) => i,
        None => h.selected,
    };
    if sel >= h.entries.len() || h.entries[sel].is_expired(now_ms, dismiss_secs) {
        return StatusLine { active: false, text: String::new(), tooltip: String::new() };
    }
    let live = h.live_entries(now_ms, dismiss_secs);
    proof {
        reveal_strlit(" ");
        reveal_strlit(" (");
        reveal_strlit("/");
        reveal_strlit(")");
        assert(" "@ =~= seq![' ']);
        assert(" ("@ =~= seq![' ', '(']);
        assert("/"@ =~= seq!['/']);
        assert(")"@ =~= seq![')']);
    }
    let mut text = String::from_str(" ");
    let name = name_for_bar(h.entries[sel].name.as_str());
    text.append(name.as_str());
    if live > 1 {
        text.append(" (");
        let pos = format_integer(sel as u64 + 1);
        text.append(pos.as_str());
        text.append("/");
        let count = format_integer(live as u64);
        text.append(count.as_str());
        text.append(")");
    }
    assert(text@ =~= seq![' '] + short_name(h@.entries[sel as int].name) + count_suffix(
        sel as nat,
        live_count(h@.entries, now_ms, dismiss_secs),
    ));
    let tooltip = tooltip_text(h, sel, now_ms, dismiss_secs);
    StatusLine { active: true, text, tooltip }
}

fn tooltip_text(h: &HistoryState, sel: usize, now_ms: u64, dismiss_secs: u64) -> (r: String)
    ensures
        r@ == joined_lines(tooltip_lines(h@.entries, sel as nat, now_ms, dismiss_secs)),
{
    let n = h.entries.len();
    let mut out = String::new();
    let mut first = true;
    let mut i: usize = 0;
    while i < n
        invariant
            n == h@.entries.len(),
            i <= n,
            out@ == joined_lines(tooltip_lines(h@.entries.take(i as int), sel as nat, now_ms, dismiss_secs)),
            first == (tooltip_lines(h@.entries.take(i as int), sel as nat, now_ms, dismiss_secs).len() == 0),
        decreases n - i,
    {
        proof {
            reveal_strlit("\u{25b8} ");
            reveal_strlit("  ");
            reveal_strlit(" (");
            reveal_strlit(")");
            reveal_strlit("\n");
            assert("\u{25b8} "@ =~= seq!['\u{25b8}', ' ']);
            assert("  "@ =~= seq![' ', ' ']);
            assert(" ("@ =~= seq![' ', '(']);
            assert(")"@ =~= seq![')']);
            assert("\n"@ =~= seq!['\n']);
        }
        let ghost t = h@.entries.take(i + 1);
        assert(t.drop_last() =~= h@.entries.take(i as int));
        let ghost lines = tooltip_lines(h@.entries.take(i as int), sel as nat, now_ms, dismiss_secs);
        let e = &h.entries[i];
        if !e.is_expired(now_ms, dismiss_secs) {
            let ghost before = out@;
            let ghost sep: Seq<char> = if first { Seq::empty() } else { seq!['\n'] };
            if !first {
                out.append("\n");
            }
            assert(out@ =~= before + sep);
            let ghost marker: Seq<char> = seq![if i == sel { '\u{25b8}' } else { ' ' }, ' '];
            if i == sel {
                out.append("\u{25b8} ");
            } else {
                out.append("  ");
            }
            assert(out@ =~= before + sep + marker);
            out.append(e.name.as_str());
            out.append(" (");
            let size = human_size(e.size);
            out.append(size.as_str());
            out.append(")");
            proof {
                let line = tooltip_line(e@, i == sel);
                assert(line =~= marker + e.name@ + seq![' ', '('] + size_text(e.size as nat) + seq![')']);
                assert(out@ =~= before + sep + line);
                let lines2 = lines.push(line);
                assert(lines2.drop_last() =~= lines);
                if first {
                    assert(before + sep + line =~= line);
                }
            }
            first = false;
        }
        i = i + 1;
    }
    assert(h@.entries.take(n as int) =~= h@.entries);
    out
}

} // verus!

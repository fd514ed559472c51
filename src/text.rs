//! Small verified operations on text, stated over the character sequence.

use vstd::prelude::*;

verus! {

/// `suffix` is a suffix of `s`.
pub open spec fn is_suffix(suffix: Seq<char>, s: Seq<char>) -> bool {
    suffix.len() <= s.len() && s.subrange(s.len() - suffix.len(), s.len() as int) == suffix
}

/// `prefix` is a prefix of `s`.
pub open spec fn is_prefix(prefix: Seq<char>, s: Seq<char>) -> bool {
    prefix.len() <= s.len() && s.subrange(0, prefix.len() as int) == prefix
}

/// Whether two strings hold the same characters.
pub fn same_text(a: &str, b: &str) -> (r: bool)
    ensures
        r == (a@ == b@),
{
    let n = a.unicode_len();
    if n != b.unicode_len() {
        return false;
    }
    let mut i: usize = 0;
    while i < n
        invariant
            n == a@.len(),
            n == b@.len(),
            i <= n,
            forall|j: int| 0 <= j < i ==> a@[j] == b@[j],
        decreases n - i,
    {
        if a.get_char(i) != b.get_char(i) {
            return false;
        }
        i = i + 1;
    }
    assert(a@ =~= b@);
    true
}

/// Whether `s` ends with `suffix`.
pub fn ends_with(s: &str, suffix: &str) -> (r: bool)
    ensures
        r == is_suffix(suffix@, s@),
{
    let n = s.unicode_len();
    let m = suffix.unicode_len();
    if m > n {
        return false;
    }
    let off = n - m;
    let mut i: usize = 0;
    while i < m
        invariant
            n == s@.len(),
            m == suffix@.len(),
            off == n - m,
            i <= m,
            forall|j: int| 0 <= j < i ==> s@[off + j] == suffix@[j],
        decreases m - i,
    {
        if s.get_char(off + i) != suffix.get_char(i) {
            assert(s@.subrange(off as int, n as int)[i as int] != suffix@[i as int]);
            return false;
        }
        i = i + 1;
    }
    assert(s@.subrange(off as int, n as int) =~= suffix@);
    true
}

/// Whether `s` starts with `prefix`.
pub fn starts_with(s: &str, prefix: &str) -> (r: bool)
    ensures
        r == is_prefix(prefix@, s@),
{
    let n = s.unicode_len();
    let m = prefix.unicode_len();
    if m > n {
        return false;
    }
    let mut i: usize = 0;
    while i < m
        invariant
            n == s@.len(),
            m == prefix@.len(),
            m <= n,
            i <= m,
            forall|j: int| 0 <= j < i ==> s@[j] == prefix@[j],
        decreases m - i,
    {
        if s.get_char(i) != prefix.get_char(i) {
            assert(s@.subrange(0, m as int)[i as int] != prefix@[i as int]);
            return false;
        }
        i = i + 1;
    }
    assert(s@.subrange(0, m as int) =~= prefix@);
    true
}

/// What follows the last `/` of `s` (all of `s` if it has none).
pub open spec fn last_segment(s: Seq<char>) -> Seq<char>
    decreases s.len(),
{
    if s.len() == 0 {
        s
    } else if s.last() == '/' {
        Seq::empty()
    } else {
        last_segment(s.drop_last()).push(s.last())
    }
}

/// The file name of a path: its last component, where trailing `/` and `.`
/// components do not count. It is empty when that component is `..`, and
/// when there is none (the root, `.`, the empty path).
pub open spec fn base_name(s: Seq<char>) -> Seq<char>
    decreases s.len(),
{
    if s.len() == 0 {
        Seq::empty()
    } else if s.last() == '/' || last_segment(s) == seq!['.'] {
        base_name(s.drop_last())
    } else if last_segment(s) == seq!['.', '.'] {
        Seq::empty()
    } else {
        last_segment(s)
    }
}

proof fn lemma_last_segment_tail(s: Seq<char>, i: int)
    requires
        0 <= i <= s.len(),
        forall|j: int| i <= j < s.len() ==> s[j] != '/',
    ensures
        last_segment(s) == last_segment(s.take(i)) + s.subrange(i, s.len() as int),
    decreases s.len() - i,
{
    if i < s.len() {
        lemma_last_segment_tail(s, i + 1);
        let t = s.take(i + 1);
        assert(t.drop_last() =~= s.take(i));
        assert(t.last() == s[i]);
        assert(last_segment(t) == last_segment(s.take(i)).push(s[i]));
        assert(last_segment(s.take(i)).push(s[i]) + s.subrange(i + 1, s.len() as int)
            =~= last_segment(s.take(i)) + s.subrange(i, s.len() as int));
    } else {
        assert(s.take(i) =~= s);
        assert(s.subrange(i, s.len() as int) =~= Seq::<char>::empty());
        assert(last_segment(s) + Seq::<char>::empty() =~= last_segment(s));
    }
}

/// The file name of the path `p`.
pub fn file_name(p: &str) -> (r: String)
    ensures
        r@ == base_name(p@),
{
    let n = p.unicode_len();
    let mut i: usize = n;
    assert(p@.take(n as int) =~= p@);
    loop
        invariant
            n == p@.len(),
            i <= n,
            base_name(p@) == base_name(p@.take(i as int)),
        decreases i,
    {
        let ghost t = p@.take(i as int);
        if i == 0 {
            return String::new();
        }
        assert(t.drop_last() =~= p@.take(i - 1));
        assert(t.last() == p@[i - 1]);
        if p.get_char(i - 1) == '/' {
            i = i - 1;
            continue;
        }
        let mut j: usize = i;
        while j > 0 && p.get_char(j - 1) != '/'
            invariant
                n == p@.len(),
                j <= i <= n,
                forall|k: int| j <= k < i ==> p@[k] != '/',
            decreases j,
        {
            j = j - 1;
        }
        proof {
            lemma_last_segment_tail(t, j as int);
            assert(t.take(j as int) =~= p@.take(j as int));
            if j > 0 {
                assert(t.take(j as int).last() == '/');
            } else {
                assert(t.take(0) =~= Seq::<char>::empty());
            }
            assert(last_segment(t.take(j as int)) =~= Seq::<char>::empty());
            assert(t.subrange(j as int, i as int) =~= p@.subrange(j as int, i as int));
            assert(last_segment(t) =~= p@.subrange(j as int, i as int));
        }
        let ghost seg = p@.subrange(j as int, i as int);
        if i - j == 1 && p.get_char(j) == '.' {
            assert(seg =~= seq!['.']);
            i = i - 1;
            continue;
        }
        if i - j == 2 && p.get_char(j) == '.' && p.get_char(j + 1) == '.' {
            assert(seg =~= seq!['.', '.']);
            return String::new();
        }
        assert(seg != seq!['.']) by {
            if seg =~= seq!['.'] {
                assert(seg[0] == p@[j as int]);
            }
        }
        assert(seg != seq!['.', '.']) by {
            if seg =~= seq!['.', '.'] {
                assert(seg[0] == p@[j as int]);
                assert(seg[1] == p@[j + 1]);
            }
        }
        return String::from_str(p.substring_char(j, i));
    }
}

} // verus!

//! Decimal text of the numbers in the persisted document: unsigned integers,
//! and timestamps written as seconds with a fraction and held as milliseconds.

use vstd::prelude::*;

verus! {

pub open spec fn is_digit(c: char) -> bool {
    '0' <= c && c <= '9'
}

pub open spec fn digit_value(c: char) -> nat {
    (c as u32 - '0' as u32) as nat
}

/// The character of the decimal digit `d`.
pub open spec fn digit_char(d: nat) -> char {
    if d == 0 {
        '0'
    } else if d == 1 {
        '1'
    } else if d == 2 {
        '2'
    } else if d == 3 {
        '3'
    } else if d == 4 {
        '4'
    } else if d == 5 {
        '5'
    } else if d == 6 {
        '6'
    } else if d == 7 {
        '7'
    } else if d == 8 {
        '8'
    } else {
        '9'
    }
}

pub open spec fn all_digits(s: Seq<char>) -> bool {
    forall|i: int| 0 <= i < s.len() ==> is_digit(#[trigger] s[i])
}

/// The number that the digits `s` write in base ten.
pub open spec fn decimal_value(s: Seq<char>) -> nat
    decreases s.len(),
{
    if s.len() == 0 {
        0
    } else {
        decimal_value(s.drop_last()) * 10 + digit_value(s.last())
    }
}

/// The shortest decimal text of `n`.
pub open spec fn digits_of(n: nat) -> Seq<char>
    decreases n,
{
    if n < 10 {
        seq![digit_char(n)]
    } else {
        digits_of(n / 10).push(digit_char(n % 10))
    }
}

/// The unsigned integer that `s` writes, if it is one that fits in 64 bits.
pub open spec fn integer_of(s: Seq<char>) -> Option<u64> {
    if s.len() > 0 && all_digits(s) && decimal_value(s) <= u64::MAX {
        Some(decimal_value(s) as u64)
    } else {
        None
    }
}

/// Where the first `.` of `s` stands, or the length of `s` if it has none.
pub open spec fn dot_index(s: Seq<char>) -> nat
    decreases s.len(),
{
    if s.len() == 0 || s[0] == '.' {
        0
    } else {
        1 + dot_index(s.drop_first())
    }
}

/// The milliseconds that the first three digits of a fraction stand for.
pub open spec fn fraction_ms(f: Seq<char>) -> nat {
    (if f.len() > 0 { digit_value(f[0]) * 100 } else { 0 }) + (if f.len() > 1 {
        digit_value(f[1]) * 10
    } else {
        0
    }) + (if f.len() > 2 { digit_value(f[2]) } else { 0 })
}

/// The whole part of a timestamp text.
pub open spec fn whole_part(s: Seq<char>) -> Seq<char> {
    s.take(dot_index(s) as int)
}

/// The fraction of a timestamp text, empty when it has no `.`.
pub open spec fn fraction_part(s: Seq<char>) -> Seq<char> {
    if dot_index(s) < s.len() {
        s.skip(dot_index(s) + 1int)
    } else {
        Seq::empty()
    }
}

/// The milliseconds that a timestamp text in seconds writes (`1700000000.25`
/// or `1700000000`), digits past the third of the fraction dropped, if it is
/// such a text and the result fits in 64 bits. A time before the epoch (with
/// a minus sign) or written with an exponent (`1.7e9`) is not read: a file
/// entry that holds one is damaged, as the clock never writes such a time.
pub open spec fn timestamp_of(s: Seq<char>) -> Option<u64> {
    let w = whole_part(s);
    let f = fraction_part(s);
    if w.len() > 0 && all_digits(w) && all_digits(f) && (dot_index(s) < s.len() ==> f.len() > 0)
        && decimal_value(w) * 1000 + fraction_ms(f) <= u64::MAX {
        Some((decimal_value(w) * 1000 + fraction_ms(f)) as u64)
    } else {
        None
    }
}

/// The text of the timestamp `ms`: its seconds, a `.` and three digits.
pub open spec fn timestamp_text(ms: nat) -> Seq<char> {
    digits_of(ms / 1000) + seq!['.', digit_char((ms % 1000) / 100), digit_char((ms % 100) / 10), digit_char(ms % 10)]
}

proof fn lemma_digit_char(d: nat)
    requires
        d < 10,
    ensures
        is_digit(digit_char(d)),
        digit_value(digit_char(d)) == d,
        digit_char(d) != '.',
{
}

proof fn lemma_single_digit(c: char)
    requires
        is_digit(c),
    ensures
        decimal_value(seq![c]) == digit_value(c),
        dot_index(seq![c]) == 1,
{
    let s = seq![c];
    assert(s.drop_last() =~= Seq::<char>::empty());
    assert(s.drop_first() =~= Seq::<char>::empty());
    assert(decimal_value(s.drop_last()) == 0);
    assert(dot_index(s.drop_first()) == 0);
}

proof fn lemma_digits_of(n: nat)
    ensures
        digits_of(n).len() > 0,
        all_digits(digits_of(n)),
        decimal_value(digits_of(n)) == n,
        dot_index(digits_of(n)) == digits_of(n).len(),
    decreases n,
{
    lemma_digit_char(n % 10);
    if n < 10 {
        lemma_single_digit(digit_char(n));
    } else {
        lemma_digits_of(n / 10);
        let p = digits_of(n / 10);
        let c = digit_char(n % 10);
        let s = digits_of(n);
        assert(s == p.push(c));
        assert(s.drop_last() =~= p);
        assert(s.last() == c);
        assert(decimal_value(s) == decimal_value(p) * 10 + digit_value(c));
        assert((n / 10) * 10 + n % 10 == n);
        assert(s =~= p + seq![c]);
        lemma_dot_index_concat(p, seq![c]);
        lemma_single_digit(c);
    }
}

proof fn lemma_dot_index_concat(a: Seq<char>, b: Seq<char>)
    requires
        dot_index(a) == a.len(),
    ensures
        dot_index(a + b) == a.len() + dot_index(b),
    decreases a.len(),
{
    if a.len() > 0 {
        assert(a[0] != '.');
        assert((a + b)[0] == a[0]);
        assert((a + b).drop_first() =~= a.drop_first() + b);
        lemma_dot_index_concat(a.drop_first(), b);
    } else {
        assert(a + b =~= b);
    }
}

proof fn lemma_dot_index_bound(s: Seq<char>)
    ensures
        dot_index(s) <= s.len(),
        dot_index(s) < s.len() ==> s[dot_index(s) as int] == '.',
        forall|i: int| 0 <= i < dot_index(s) ==> s[i] != '.',
    decreases s.len(),
{
    if s.len() > 0 && s[0] != '.' {
        lemma_dot_index_bound(s.drop_first());
        assert forall|i: int| 0 <= i < dot_index(s) implies s[i] != '.' by {
            if i > 0 {
                assert(s[i] == s.drop_first()[i - 1]);
            }
        }
    }
}

proof fn lemma_value_prefix(s: Seq<char>, k: int)
    requires
        0 <= k <= s.len(),
    ensures
        decimal_value(s) >= decimal_value(s.take(k)),
    decreases s.len(),
{
    if k < s.len() {
        lemma_value_prefix(s.drop_last(), k);
        assert(s.drop_last().take(k) =~= s.take(k));
    } else {
        assert(s.take(k) =~= s);
    }
}

/// A timestamp read back from its own text is the same timestamp.
pub proof fn lemma_timestamp_round_trip(ms: u64)
    ensures
        timestamp_of(timestamp_text(ms as nat)) == Some(ms),
{
    let n = ms as nat;
    let q = n / 1000;
    let d0 = (n % 1000) / 100;
    let d1 = (n % 100) / 10;
    let d2 = n % 10;
    let tail = seq!['.', digit_char(d0), digit_char(d1), digit_char(d2)];
    let s = timestamp_text(n);
    lemma_digits_of(q);
    lemma_digit_char(d0);
    lemma_digit_char(d1);
    lemma_digit_char(d2);
    lemma_dot_index_concat(digits_of(q), tail);
    assert(dot_index(tail) == 0);
    assert(s.take(digits_of(q).len() as int) =~= digits_of(q));
    let f = s.skip(digits_of(q).len() + 1int);
    assert(f =~= seq![digit_char(d0), digit_char(d1), digit_char(d2)]);
    assert(fraction_ms(f) == d0 * 100 + d1 * 10 + d2);
    assert(d0 * 100 + d1 * 10 + d2 == n % 1000) by (nonlinear_arith)
        requires
            d0 == (n % 1000) / 100,
            d1 == (n % 100) / 10,
            d2 == n % 10,
    ;
    assert(q * 1000 + n % 1000 == n) by (nonlinear_arith)
        requires
            q == n / 1000,
    ;
}

/// An integer read back from its own text is the same integer.
pub proof fn lemma_integer_round_trip(n: u64)
    ensures
        integer_of(digits_of(n as nat)) == Some(n),
{
    lemma_digits_of(n as nat);
}

pub(crate) fn digit_text(d: u64) -> (r: &'static str)
    requires
        d < 10,
    ensures
        r@ == seq![digit_char(d as nat)],
{
    proof {
        reveal_strlit("0");
        reveal_strlit("1");
        reveal_strlit("2");
        reveal_strlit("3");
        reveal_strlit("4");
        reveal_strlit("5");
        reveal_strlit("6");
        reveal_strlit("7");
        reveal_strlit("8");
        reveal_strlit("9");
    }
    if d == 0 {
        "0"
    } else if d == 1 {
        "1"
    } else if d == 2 {
        "2"
    } else if d == 3 {
        "3"
    } else if d == 4 {
        "4"
    } else if d == 5 {
        "5"
    } else if d == 6 {
        "6"
    } else if d == 7 {
        "7"
    } else if d == 8 {
        "8"
    } else {
        "9"
    }
}

/// The decimal text of `n`.
pub fn format_integer(n: u64) -> (r: String)
    ensures
        r@ == digits_of(n as nat),
    decreases n,
{
    if n < 10 {
        String::from_str(digit_text(n))
    } else {
        let mut s = format_integer(n / 10);
        s.append(digit_text(n % 10));
        s
    }
}

/// The text of the timestamp `ms` in seconds, with three digits of fraction.
pub fn format_timestamp(ms: u64) -> (r: String)
    ensures
        r@ == timestamp_text(ms as nat),
{
    let mut s = format_integer(ms / 1000);
    proof {
        reveal_strlit(".");
    }
    s.append(".");
    s.append(digit_text((ms % 1000) / 100));
    s.append(digit_text((ms % 100) / 10));
    s.append(digit_text(ms % 10));
    assert(s@ =~= timestamp_text(ms as nat));
    s
}

/// The value of the digits `s[lo..hi]`, if they are digits, at least one,
/// and their value fits in 64 bits.
fn digits_in(s: &str, lo: usize, hi: usize) -> (r: Option<u64>)
    requires
        lo <= hi <= s@.len(),
    ensures
        r == integer_of(s@.subrange(lo as int, hi as int)),
{
    let ghost t = s@.subrange(lo as int, hi as int);
    if lo == hi {
        return None;
    }
    let mut acc: u64 = 0;
    let mut overflow = false;
    let mut i: usize = lo;
    while i < hi
        invariant
            lo <= i <= hi <= s@.len(),
            t == s@.subrange(lo as int, hi as int),
            all_digits(t.take(i - lo)),
            !overflow ==> acc == decimal_value(t.take(i - lo)),
            overflow ==> decimal_value(t.take(i - lo)) > u64::MAX,
        decreases hi - i,
    {
        let c = s.get_char(i);
        if !('0' <= c && c <= '9') {
            assert(!is_digit(t[i - lo]));
            return None;
        }
        let d = (c as u32 - '0' as u32) as u64;
        let ghost p = t.take(i - lo);
        let ghost q = t.take(i - lo + 1);
        proof {
            assert(q.drop_last() =~= p);
            assert(q.last() == c);
            assert(decimal_value(q) == decimal_value(p) * 10 + d);
            assert forall|j: int| 0 <= j < q.len() implies is_digit(#[trigger] q[j]) by {
                if j < p.len() {
                    assert(q[j] == p[j]);
                }
            }
        }
        if !overflow {
            if acc > (u64::MAX - d) / 10 {
                assert(acc * 10 + d > u64::MAX) by (nonlinear_arith)
                    requires
                        acc > (u64::MAX - d) / 10,
                        d <= 9,
                ;
                overflow = true;
            } else {
                assert(acc * 10 + d <= u64::MAX) by (nonlinear_arith)
                    requires
                        acc <= (u64::MAX - d) / 10,
                        d <= 9,
                ;
                acc = acc * 10 + d;
            }
        } else {
            assert(decimal_value(p) * 10 + d > u64::MAX) by (nonlinear_arith)
                requires
                    decimal_value(p) > u64::MAX,
            ;
        }
        i = i + 1;
    }
    assert(t.take(hi - lo) =~= t);
    if overflow {
        None
    } else {
        Some(acc)
    }
}

/// The unsigned integer that `s` writes in decimal, if it fits in 64 bits.
pub fn parse_integer(s: &str) -> (r: Option<u64>)
    ensures
        r == integer_of(s@),
{
    let n = s.unicode_len();
    assert(s@.subrange(0, n as int) =~= s@);
    digits_in(s, 0, n)
}

/// The timestamp, in milliseconds, that `s` writes in seconds.
pub fn parse_timestamp(s: &str) -> (r: Option<u64>)
    ensures
        r == timestamp_of(s@),
{
    let n = s.unicode_len();
    let mut k: usize = 0;
    while k < n && s.get_char(k) != '.'
        invariant
            n == s@.len(),
            k <= n,
            forall|j: int| 0 <= j < k ==> s@[j] != '.',
        decreases n - k,
    {
        k = k + 1;
    }
    proof {
        lemma_dot_index_bound(s@);
        let di = dot_index(s@);
        if di < k {
            assert(s@[di as int] == '.');
        }
        if k < di {
            assert(s@[k as int] != '.');
        }
        assert(di == k);
        assert(whole_part(s@) =~= s@.subrange(0, k as int));
    }
    let whole = match digits_in(s, 0, k) {
        Some(w) => w,
        None => {
            proof {
                let w = whole_part(s@);
                if w.len() > 0 && all_digits(w) {
                    lemma_value_prefix(w, w.len() as int);
                }
            }
            return None;
        },
    };
    let ghost f = fraction_part(s@);
    let mut frac: u64 = 0;
    if k < n {
        assert(f =~= s@.subrange(k + 1, n as int));
        if k + 1 == n {
            return None;
        }
        let mut i: usize = k + 1;
        while i < n
            invariant
                k < n,
                n == s@.len(),
                k + 1 <= i <= n,
                f == s@.subrange(k + 1, n as int),
                f == fraction_part(s@),
                forall|j: int| 0 <= j < i - k - 1 ==> is_digit(#[trigger] f[j]),
            decreases n - i,
        {
            let c = s.get_char(i);
            if !('0' <= c && c <= '9') {
                assert(!is_digit(f[i - k - 1]));
                return None;
            }
            i = i + 1;
        }
        let c0 = s.get_char(k + 1);
        frac = (c0 as u32 - '0' as u32) as u64 * 100;
        if n - k > 2 {
            let c1 = s.get_char(k + 2);
            frac = frac + (c1 as u32 - '0' as u32) as u64 * 10;
        }
        if n - k > 3 {
            let c2 = s.get_char(k + 3);
            frac = frac + (c2 as u32 - '0' as u32) as u64;
        }
        assert(frac == fraction_ms(f));
    } else {
        assert(f =~= Seq::<char>::empty());
        assert(frac == fraction_ms(f));
    }
    if whole > (u64::MAX - frac) / 1000 {
        assert(whole * 1000 + frac > u64::MAX) by (nonlinear_arith)
            requires
                whole > (u64::MAX - frac) / 1000,
                frac <= 999,
        ;
        return None;
    }
    assert(whole * 1000 + frac <= u64::MAX) by (nonlinear_arith)
        requires
            whole <= (u64::MAX - frac) / 1000,
            frac <= 999,
    ;
    Some(whole * 1000 + frac)
}

} // verus!

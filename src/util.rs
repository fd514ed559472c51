//! Sizes as people read them.

use crate::number::{digit_char, digits_of, format_integer};
use vstd::prelude::*;

verus! {

/// Which unit a size is written in: 0 for bytes, then KB, MB, GB and TB.
pub open spec fn unit_index(bytes: nat) -> nat {
    if bytes < 1024 {
        0
    } else if bytes < 1024 * 1024 {
        1
    } else if bytes < 1024 * 1024 * 1024 {
        2
    } else if bytes < 1024 * 1024 * 1024 * 1024 {
        3
    } else {
        4
    }
}

pub open spec fn unit_size(k: nat) -> nat {
    if k == 0 {
        1
    } else if k == 1 {
        1024
    } else if k == 2 {
        1024 * 1024
    } else if k == 3 {
        1024 * 1024 * 1024
    } else {
        1024 * 1024 * 1024 * 1024
    }
}

pub open spec fn unit_name(k: nat) -> Seq<char> {
    if k == 1 {
        seq!['K', 'B']
    } else if k == 2 {
        seq!['M', 'B']
    } else if k == 3 {
        seq!['G', 'B']
    } else {
        seq!['T', 'B']
    }
}

/// `bytes / unit` in tenths, rounded to the nearest, a tie to the even one.
pub open spec fn rounded_tenths(bytes: nat, unit: nat) -> nat
    recommends
        unit > 0,
{
    let q = bytes * 10 / unit;
    let r = bytes * 10 % unit;
    if 2 * r > unit || (2 * r == unit && q % 2 == 1) {
        q + 1
    } else {
        q
    }
}

/// The text of a size: whole bytes below one KB, else the value in the
/// largest unit up to TB that keeps it at least 1, with one decimal.
pub open spec fn size_text(bytes: nat) -> Seq<char> {
    let k = unit_index(bytes);
    if k == 0 {
        digits_of(bytes) + seq![' ', 'B']
    } else {
        let t = rounded_tenths(bytes, unit_size(k));
        digits_of(t / 10) + seq!['.', digit_char(t % 10), ' '] + unit_name(k)
    }
}

/// The size `bytes` as people read it: `512 B`, `1.5 KB`, `3.0 MB`.
pub fn human_size(bytes: u64) -> (r: String)
    ensures
        r@ == size_text(bytes as nat),
{
    proof {
        reveal_strlit(" B");
        reveal_strlit(".");
        reveal_strlit(" ");
        reveal_strlit("KB");
        reveal_strlit("MB");
        reveal_strlit("GB");
        reveal_strlit("TB");
    }
    if bytes < 1024 {
        let mut s = format_integer(bytes);
        s.append(" B");
        return s;
    }
    let (unit, name): (u128, &str) = if bytes < 1024 * 1024 {
        (1024, "KB")
    } else if bytes < 1024 * 1024 * 1024 {
        (1024 * 1024, "MB")
    } else if bytes < 1024 * 1024 * 1024 * 1024 {
        (1024 * 1024 * 1024, "GB")
    } else {
        (1024 * 1024 * 1024 * 1024, "TB")
    };
    assert(unit == unit_size(unit_index(bytes as nat)));
    assert(name@ == unit_name(unit_index(bytes as nat)));
    let scaled: u128 = bytes as u128 * 10;
    let q = scaled / unit;
    let r = scaled % unit;
    let t: u128 = if 2 * r > unit || (2 * r == unit && q % 2 == 1) {
        q + 1
    } else {
        q
    };
    assert(t == rounded_tenths(bytes as nat, unit as nat));
    assert(t <= bytes as nat * 10 + 1) by (nonlinear_arith)
        requires
            unit >= 1,
            q == scaled / unit,
            t <= q + 1,
            scaled == bytes as nat * 10,
    ;
    let whole = (t / 10) as u64;
    let mut s = format_integer(whole);
    s.append(".");
    s.append(crate::number::digit_text((t % 10) as u64));
    s.append(" ");
    s.append(name);
    assert(s@ =~= size_text(bytes as nat));
    s
}

} // verus!

//! Decimal text of integers, as the settings table stores them: parsing
//! with an optional sign, and formatting.

use vstd::prelude::*;
use crate::text::{chars_of, string_of};

verus! {

pub open spec fn is_digit(c: char) -> bool {
    '0' <= c && c <= '9'
}

pub open spec fn all_digits(s: Seq<char>) -> bool {
    forall|i: int| 0 <= i < s.len() ==> is_digit(#[trigger] s[i])
}

/// The value of a string of decimal digits.
pub open spec fn digits_value(s: Seq<char>) -> int
    decreases s.len(),
{
    if s.len() == 0 {
        0
    } else {
        digits_value(s.drop_last()) * 10 + (s.last() as int - 48)
    }
}

/// The integer that `s` spells: an optional `+` or `-`, then one or more
/// decimal digits, nothing else.
pub open spec fn decimal_of(s: Seq<char>) -> Option<int> {
    if s.len() > 0 && (s[0] == '-' || s[0] == '+') {
        let d = s.drop_first();
        if d.len() > 0 && all_digits(d) {
            Some(if s[0] == '-' { -digits_value(d) } else { digits_value(d) })
        } else {
            None
        }
    } else if s.len() > 0 && all_digits(s) {
        Some(digits_value(s))
    } else {
        None
    }
}

/// The integer that `s` spells, when it lies in `[lo, hi]`.
pub open spec fn decimal_in(s: Seq<char>, lo: int, hi: int) -> Option<int> {
    match decimal_of(s) {
        Some(v) => if lo <= v <= hi { Some(v) } else { None },
        None => None,
    }
}

pub open spec fn digit_char(d: nat) -> char {
    (d + 48) as char
}

/// The decimal digits of `n`, most significant first, without leading zeros.
pub open spec fn digits_text(n: nat) -> Seq<char>
    decreases n,
{
    if n < 10 {
        seq![digit_char(n)]
    } else {
        digits_text(n / 10).push(digit_char(n % 10))
    }
}

/// The decimal text of `v`, with a `-` when it is negative.
pub open spec fn decimal_text(v: int) -> Seq<char> {
    if v < 0 {
        seq!['-'] + digits_text((-v) as nat)
    } else {
        digits_text(v as nat)
    }
}

proof fn lemma_digits_value_nonneg(s: Seq<char>)
    requires
        all_digits(s),
    ensures
        digits_value(s) >= 0,
    decreases s.len(),
{
    if s.len() > 0 {
        assert(is_digit(s[s.len() - 1]));
        lemma_digits_value_nonneg(s.drop_last());
    }
}

/// The value of a run of digits, or `None` when it exceeds `2^63`.
fn digits_to_u64(d: &Vec<char>, start: usize) -> (r: Option<u64>)
    requires
        start <= d@.len(),
        all_digits(d@.subrange(start as int, d@.len() as int)),
    ensures
        match r {
            Some(v) => v == digits_value(d@.subrange(start as int, d@.len() as int)) && v <= 0x8000_0000_0000_0000,
            None => digits_value(d@.subrange(start as int, d@.len() as int)) > 0x8000_0000_0000_0000,
        },
{
    let ghost s = d@.subrange(start as int, d@.len() as int);
    let mut acc: u64 = 0;
    let mut over = false;
    let mut i: usize = start;
    while i < d.len()
        invariant
            start <= i <= d@.len(),
            s == d@.subrange(start as int, d@.len() as int),
            all_digits(s),
            !over ==> acc == digits_value(d@.subrange(start as int, i as int)) && acc <= 0x8000_0000_0000_0000,
            over ==> digits_value(d@.subrange(start as int, i as int)) > 0x8000_0000_0000_0000,
        decreases d@.len() - i,
    {
        let ghost p = d@.subrange(start as int, i + 1);
        assert(p.drop_last() =~= d@.subrange(start as int, i as int));
        assert(d@[i as int] == s[i - start]);
        assert(is_digit(s[i - start]));
        let digit = (d[i] as u32 - 48) as u64;
        proof {
            assert forall|j: int| 0 <= j < p.len() implies is_digit(#[trigger] p[j]) by {
                assert(p[j] == s[j]);
            }
            lemma_digits_value_nonneg(p.drop_last());
        }
        if !over {
            if acc > 922_337_203_685_477_580 || (acc == 922_337_203_685_477_580 && digit > 8) {
                over = true;
            } else {
                acc = acc * 10 + digit;
            }
        }
        i = i + 1;
    }
    if over {
        None
    } else {
        Some(acc)
    }
}

/// Parses `s` as an integer in `[lo, hi]`.
pub fn parse_decimal(s: &str, lo: i64, hi: i64) -> (r: Option<i64>)
    ensures
        match decimal_in(s@, lo as int, hi as int) {
            Some(v) => r == Some(v as i64),
            None => r is None,
        },
{
    let d = chars_of(s);
    let n = d.len();
    if n == 0 {
        return None;
    }
    let signed = d[0] == '-' || d[0] == '+';
    let start: usize = if signed { 1 } else { 0 };
    if start >= n {
        return None;
    }
    let mut i: usize = start;
    while i < n
        invariant
            start <= i <= n == d@.len(),
            d@ == s@,
            start < n,
            signed == (s@[0] == '-' || s@[0] == '+'),
            start == (if signed { 1usize } else { 0usize }),
            forall|j: int| start <= j < i ==> is_digit(#[trigger] d@[j]),
        decreases n - i,
    {
        if d[i] < '0' || d[i] > '9' {
            proof {
                let t = d@.subrange(start as int, n as int);
                assert(t[i - start] == d@[i as int]);
                if signed {
                    assert(s@.drop_first() =~= t);
                } else {
                    assert(s@ =~= t);
                }
            }
            return None;
        }
        i = i + 1;
    }
    let ghost t = d@.subrange(start as int, n as int);
    assert forall|j: int| 0 <= j < t.len() implies is_digit(#[trigger] t[j]) by {
        assert(t[j] == d@[start + j]);
    }
    if signed {
        assert(s@.drop_first() =~= t);
    } else {
        assert(s@ =~= t);
    }
    match digits_to_u64(&d, start) {
        Some(m) => {
            let v: i128 = if d[0] == '-' { -(m as i128) } else { m as i128 };
            if v < lo as i128 || v > hi as i128 {
                None
            } else {
                Some(v as i64)
            }
        },
        None => None,
    }
}

fn push_digits(out: &mut Vec<char>, n: u64)
    ensures
        final(out)@ == old(out)@ + digits_text(n as nat),
    decreases n,
{
    if n >= 10 {
        push_digits(out, n / 10);
    }
    let ghost before = out@;
    out.push(((n % 10) as u8 + 48) as char);
    if n >= 10 {
        assert(out@ =~= old(out)@ + digits_text(n as nat));
    } else {
        assert(out@ =~= old(out)@ + digits_text(n as nat));
    }
}

/// The decimal text of `v`.
pub fn format_decimal(v: i64) -> (r: String)
    ensures
        r@ == decimal_text(v as int),
{
    let mut out: Vec<char> = Vec::new();
    if v < 0 {
        out.push('-');
        let m: u64 = (-(v as i128)) as u64;
        push_digits(&mut out, m);
    } else {
        push_digits(&mut out, v as u64);
    }
    string_of(&out)
}

} // verus!

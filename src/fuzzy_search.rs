//! The match engine: transliteration keys (pinyin initials and full pinyin)
//! and the four-tier fuzzy match of a query against a text.

use vstd::prelude::*;
use pinyin::ToPinyin;
use crate::text::{
    chars_of, contains_chars, contains_seq, lemma_contains_implies_skip, lower_of, lowercase,
    occurs_at, skip_match, skip_match_chars, string_of,
};

verus! {

/// The plain (toneless) pinyin reading of a character in the `pinyin` crate's
/// table; empty for a character that the table does not hold.
pub uninterp spec fn pinyin_plain_of(c: char) -> Seq<char>;

/// Relies on `pinyin::ToPinyin for char` and `Pinyin::plain`: the table's
/// plain reading of `c`, or nothing when `c` has no entry.
#[verifier::external_body]
fn plain_pinyin(c: char) -> (r: String)
    ensures
        r@ == pinyin_plain_of(c),
{
    match c.to_pinyin() {
        Some(p) => p.plain().to_string(),
        None => String::new(),
    }
}

/// The first letter of a character's reading, or the character itself when
/// it has none.
pub open spec fn initial_of(c: char) -> char {
    let p = pinyin_plain_of(c);
    if p.len() > 0 {
        p[0]
    } else {
        c
    }
}

/// The initials key of a text: one character per character of the text.
pub open spec fn initials_of(s: Seq<char>) -> Seq<char> {
    s.map_values(|c: char| initial_of(c))
}

/// The full-transliteration key of a text: the readings of its characters,
/// concatenated in order; characters without a reading add nothing.
pub open spec fn full_of(s: Seq<char>) -> Seq<char>
    decreases s.len(),
{
    if s.len() == 0 {
        Seq::empty()
    } else {
        full_of(s.drop_last()) + pinyin_plain_of(s.last())
    }
}

/// The four tiers, on a query and a text that are already lowercase.
pub open spec fn exact_tier(q: Seq<char>, t: Seq<char>) -> bool {
    contains_seq(t, q)
}

pub open spec fn initials_tier(q: Seq<char>, t: Seq<char>) -> bool {
    contains_seq(initials_of(t), q)
}

pub open spec fn full_tier(q: Seq<char>, t: Seq<char>) -> bool {
    contains_seq(full_of(t), q)
}

pub open spec fn skip_tier(q: Seq<char>, t: Seq<char>) -> bool {
    skip_match(q, t)
}

/// A lowercase query matches a lowercase text when any tier holds.
pub open spec fn tiers_match(q: Seq<char>, t: Seq<char>) -> bool {
    exact_tier(q, t) || initials_tier(q, t) || full_tier(q, t) || skip_tier(q, t)
}

/// The case-insensitive match of `query` against `text`.
pub open spec fn fuzzy_matches(query: Seq<char>, text: Seq<char>) -> bool {
    tiers_match(lower_of(query), lower_of(text))
}

/// The tiers are independent sufficient conditions: a lowercase query matches
/// a lowercase text exactly when at least one tier holds, each tier alone is
/// enough, a later tier can hold where an earlier one does not, and a
/// contiguous occurrence is always an occurrence with skips as well.
pub proof fn lemma_tiers_independent(q: Seq<char>, t: Seq<char>)
    ensures
        tiers_match(q, t) <==> (exact_tier(q, t) || initials_tier(q, t) || full_tier(q, t)
            || skip_tier(q, t)),
        exact_tier(q, t) ==> tiers_match(q, t),
        initials_tier(q, t) ==> tiers_match(q, t),
        full_tier(q, t) ==> tiers_match(q, t),
        skip_tier(q, t) ==> tiers_match(q, t),
        exact_tier(q, t) ==> skip_tier(q, t),
        exists|q2: Seq<char>, t2: Seq<char>| skip_tier(q2, t2) && !exact_tier(q2, t2),
{
    if exact_tier(q, t) {
        lemma_contains_implies_skip(t, q);
    }
    let q2 = seq!['a', 'c'];
    let t2 = seq!['a', 'b', 'c'];
    assert(t2.drop_first() =~= seq!['b', 'c']);
    assert(q2.drop_first() =~= seq!['c']);
    assert(t2.drop_first().drop_first() =~= seq!['c']);
    assert(seq!['c'].drop_first() =~= Seq::<char>::empty());
    assert(skip_match(Seq::<char>::empty(), Seq::<char>::empty()));
    assert(skip_match(seq!['c'], seq!['c']));
    assert(skip_match(seq!['c'], seq!['b', 'c']));
    assert(skip_match(q2, t2));
    assert forall|i: int| !occurs_at(t2, q2, i) by {
        if 0 <= i && i + 2 <= 3 {
            assert(t2.subrange(i, i + 2)[1] != q2[1] || t2.subrange(i, i + 2)[0] != q2[0]);
        }
    }
    assert(skip_tier(q2, t2) && !exact_tier(q2, t2));
}

fn initials_chars(t: &Vec<char>) -> (r: Vec<char>)
    ensures
        r@ == initials_of(t@),
{
    let mut out: Vec<char> = Vec::new();
    let mut i: usize = 0;
    while i < t.len()
        invariant
            i <= t@.len(),
            out@ == initials_of(t@.subrange(0, i as int)),
        decreases t@.len() - i,
    {
        let c = t[i];
        let p = chars_of(plain_pinyin(c).as_str());
        let first = if p.len() > 0 {
            p[0]
        } else {
            c
        };
        out.push(first);
        assert(initials_of(t@.subrange(0, i + 1)) =~= initials_of(t@.subrange(0, i as int)).push(
            initial_of(c),
        ));
        i = i + 1;
    }
    assert(t@.subrange(0, t@.len() as int) =~= t@);
    out
}

fn full_chars(t: &Vec<char>) -> (r: Vec<char>)
    ensures
        r@ == full_of(t@),
{
    let mut out: Vec<char> = Vec::new();
    let mut i: usize = 0;
    while i < t.len()
        invariant
            i <= t@.len(),
            out@ == full_of(t@.subrange(0, i as int)),
        decreases t@.len() - i,
    {
        let p = chars_of(plain_pinyin(t[i]).as_str());
        let mut k: usize = 0;
        let ghost before = out@;
        while k < p.len()
            invariant
                k <= p@.len(),
                out@ == before + p@.subrange(0, k as int),
            decreases p@.len() - k,
        {
            out.push(p[k]);
            assert(p@.subrange(0, k + 1) =~= p@.subrange(0, k as int).push(p@[k as int]));
            k = k + 1;
        }
        assert(p@.subrange(0, p@.len() as int) =~= p@);
        assert(t@.subrange(0, i + 1).drop_last() =~= t@.subrange(0, i as int));
        i = i + 1;
    }
    assert(t@.subrange(0, t@.len() as int) =~= t@);
    out
}

/// The pinyin initials of `text`: each character with a reading gives the
/// first letter of it, every other character stands as it is.
pub fn to_pinyin_initials(text: &str) -> (r: String)
    ensures
        r@ == initials_of(text@),
{
    let t = chars_of(text);
    string_of(&initials_chars(&t))
}

/// The full pinyin of `text`: the readings of its characters, concatenated;
/// characters without a reading contribute nothing.
pub fn to_pinyin_full(text: &str) -> (r: String)
    ensures
        r@ == full_of(text@),
{
    let t = chars_of(text);
    string_of(&full_chars(&t))
}

/// The tiers of the match, on a query and a text already in lowercase, tried
/// in order: contiguous, in the initials key, in the full key, then in order
/// with skips.
pub fn fuzzy_match_lowered(query_lower: &str, text_lower: &str) -> (r: bool)
    ensures
        r == tiers_match(query_lower@, text_lower@),
{
    let q = chars_of(query_lower);
    let t = chars_of(text_lower);
    if contains_chars(&t, &q) {
        return true;
    }
    if contains_chars(&initials_chars(&t), &q) {
        return true;
    }
    if contains_chars(&full_chars(&t), &q) {
        return true;
    }
    skip_match_chars(&q, &t)
}

/// Case-insensitive fuzzy match of `query` against `text`. The last tier
/// has no threshold: any in-order occurrence of the query's characters
/// matches, which trades precision for recall.
pub fn fuzzy_match(query: &str, text: &str) -> (r: bool)
    ensures
        r == fuzzy_matches(query@, text@),
{
    let query_lower = lowercase(query);
    let text_lower = lowercase(text);
    fuzzy_match_lowered(query_lower.as_str(), text_lower.as_str())
}

/// Whether the characters of `query` occur in `text` in order, not
/// necessarily next to each other (compared as given, without case folding).
pub fn fuzzy_match_chars(query: &str, text: &str) -> (r: bool)
    ensures
        r == skip_match(query@, text@),
{
    let q = chars_of(query);
    let t = chars_of(text);
    skip_match_chars(&q, &t)
}

} // verus!

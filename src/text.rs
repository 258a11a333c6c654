//! Character-level helpers over std's string type, and the searches on
//! character sequences that the match engine is built from.

use vstd::prelude::*;

verus! {

/// What `str::to_lowercase` yields for a string: a function of its characters alone.
pub uninterp spec fn lower_of(s: Seq<char>) -> Seq<char>;

/// Relies on `str::chars`: the characters of the string, in order.
#[verifier::external_body]
pub(crate) fn chars_of(s: &str) -> (r: Vec<char>)
    ensures
        r@ == s@,
{
    s.chars().collect()
}

/// Relies on `String`'s `FromIterator<char>`: the string made of these characters, in order.
#[verifier::external_body]
pub(crate) fn string_of(v: &Vec<char>) -> (r: String)
    ensures
        r@ == v@,
{
    v.iter().collect()
}

/// Relies on `str::to_lowercase`: the lowercase form, which depends on the characters alone.
#[verifier::external_body]
pub(crate) fn lowercase(s: &str) -> (r: String)
    ensures
        r@ == lower_of(s@),
{
    s.to_lowercase()
}

/// `needle` stands contiguously in `hay` starting at position `i`.
pub open spec fn occurs_at(hay: Seq<char>, needle: Seq<char>, i: int) -> bool {
    0 <= i && i + needle.len() <= hay.len() && hay.subrange(i, i + needle.len()) == needle
}

/// `needle` is a contiguous part of `hay` (the empty sequence is part of every sequence).
pub open spec fn contains_seq(hay: Seq<char>, needle: Seq<char>) -> bool {
    exists|i: int| occurs_at(hay, needle, i)
}

/// Greedy in-order matching: each character of `q` is found in `t` after the
/// one matched before it, consuming `t` from left to right.
pub open spec fn skip_match(q: Seq<char>, t: Seq<char>) -> bool
    decreases t.len(),
{
    if q.len() == 0 {
        true
    } else if t.len() == 0 {
        false
    } else if q[0] == t[0] {
        skip_match(q.drop_first(), t.drop_first())
    } else {
        skip_match(q, t.drop_first())
    }
}

/// Matching with skips survives putting one more character in front of the text.
pub proof fn lemma_skip_extend(q: Seq<char>, t: Seq<char>)
    requires
        t.len() > 0,
        skip_match(q, t.drop_first()),
    ensures
        skip_match(q, t),
    decreases t.len(), 0int,
{
    if q.len() > 0 && q[0] == t[0] {
        lemma_skip_drop_query(q, t.drop_first());
    }
}

/// Matching with skips survives dropping the first character of the query.
pub proof fn lemma_skip_drop_query(q: Seq<char>, t: Seq<char>)
    requires
        q.len() > 0,
        skip_match(q, t),
    ensures
        skip_match(q.drop_first(), t),
    decreases t.len(), 1int,
{
    if q[0] == t[0] {
        lemma_skip_extend(q.drop_first(), t);
    } else {
        lemma_skip_drop_query(q, t.drop_first());
        lemma_skip_extend(q.drop_first(), t);
    }
}

/// Matching with skips survives any prefix put in front of the text.
pub proof fn lemma_skip_suffix(q: Seq<char>, t: Seq<char>, i: int)
    requires
        0 <= i <= t.len(),
        skip_match(q, t.subrange(i, t.len() as int)),
    ensures
        skip_match(q, t),
    decreases i,
{
    if i == 0 {
        assert(t.subrange(0, t.len() as int) =~= t);
    } else {
        assert(t.drop_first().subrange(i - 1, t.drop_first().len() as int) =~= t.subrange(i, t.len() as int));
        lemma_skip_suffix(q, t.drop_first(), i - 1);
        lemma_skip_extend(q, t);
    }
}

/// A query matches, with skips, any text that starts with it.
pub proof fn lemma_skip_of_prefix(q: Seq<char>, rest: Seq<char>)
    ensures
        skip_match(q, q + rest),
    decreases q.len(),
{
    if q.len() > 0 {
        assert((q + rest).drop_first() =~= q.drop_first() + rest);
        lemma_skip_of_prefix(q.drop_first(), rest);
    }
}

/// A contiguous occurrence is also an in-order occurrence with skips.
pub proof fn lemma_contains_implies_skip(hay: Seq<char>, needle: Seq<char>)
    requires
        contains_seq(hay, needle),
    ensures
        skip_match(needle, hay),
{
    let i = choose|i: int| occurs_at(hay, needle, i);
    let rest = hay.subrange(i + needle.len(), hay.len() as int);
    assert(hay.subrange(i, hay.len() as int) =~= needle + rest);
    lemma_skip_of_prefix(needle, rest);
    lemma_skip_suffix(needle, hay, i);
}

/// Whether `needle` occurs contiguously in `hay`.
pub fn contains_chars(hay: &Vec<char>, needle: &Vec<char>) -> (r: bool)
    ensures
        r == contains_seq(hay@, needle@),
{
    let n = needle.len();
    let h = hay.len();
    if n > h {
        assert forall|i: int| !occurs_at(hay@, needle@, i) by {}
        return false;
    }
    let mut i: usize = 0;
    while i <= h - n
        invariant
            n == needle@.len(),
            h == hay@.len(),
            n <= h,
            i <= h - n + 1,
            forall|j: int| 0 <= j < i ==> !occurs_at(hay@, needle@, j),
        decreases h - n + 1 - i,
    {
        let mut k: usize = 0;
        let mut same = true;
        while k < n && same
            invariant
                n == needle@.len(),
                h == hay@.len(),
                i + n <= h,
                k <= n,
                same ==> forall|m: int| 0 <= m < k ==> hay@[i + m] == needle@[m],
                !same ==> exists|m: int| 0 <= m < n && hay@[i + m] != needle@[m],
            decreases n - k + (if same { 1int } else { 0int }),
        {
            if hay[i + k] != needle[k] {
                same = false;
            } else {
                k = k + 1;
            }
        }
        if same {
            assert(hay@.subrange(i as int, i + n) =~= needle@);
            assert(occurs_at(hay@, needle@, i as int));
            return true;
        }
        proof {
            let m = choose|m: int| 0 <= m < n && hay@[i + m] != needle@[m];
            assert(hay@.subrange(i as int, i + n)[m] != needle@[m]);
        }
        i = i + 1;
    }
    assert forall|j: int| !occurs_at(hay@, needle@, j) by {
        if 0 <= j && j + n <= h {
            assert(j < i);
        }
    }
    false
}

/// Whether every character of `q` is found in `t` in order, skipping
/// characters of `t` freely.
pub fn skip_match_chars(q: &Vec<char>, t: &Vec<char>) -> (r: bool)
    ensures
        r == skip_match(q@, t@),
{
    let mut qi: usize = 0;
    let mut ti: usize = 0;
    assert(q@.subrange(0, q@.len() as int) =~= q@);
    assert(t@.subrange(0, t@.len() as int) =~= t@);
    while qi < q.len() && ti < t.len()
        invariant
            qi <= q@.len(),
            ti <= t@.len(),
            skip_match(q@, t@) == skip_match(q@.subrange(qi as int, q@.len() as int), t@.subrange(ti as int, t@.len() as int)),
        decreases t@.len() - ti,
    {
        let ghost qs = q@.subrange(qi as int, q@.len() as int);
        let ghost ts = t@.subrange(ti as int, t@.len() as int);
        assert(ts.drop_first() =~= t@.subrange(ti + 1, t@.len() as int));
        if q[qi] == t[ti] {
            assert(qs.drop_first() =~= q@.subrange(qi + 1, q@.len() as int));
            qi = qi + 1;
        }
        ti = ti + 1;
    }
    if qi == q.len() {
        assert(q@.subrange(qi as int, q@.len() as int).len() == 0);
    } else {
        assert(t@.subrange(ti as int, t@.len() as int).len() == 0);
    }
    qi == q.len()
}

} // verus!

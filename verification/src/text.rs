//! Text as a sequence of characters: where one text occurs in another, and
//! which of two texts comes first.

use vstd::prelude::*;

verus! {

/// `needle` stands in `text` at position `at`.
pub open spec fn occurs_at(text: Seq<char>, at: int, needle: Seq<char>) -> bool {
    &&& 0 <= at
    &&& at + needle.len() <= text.len()
    &&& text.subrange(at, at + needle.len()) == needle
}

/// `needle` stands somewhere in `text`.
pub open spec fn occurs_in(text: Seq<char>, needle: Seq<char>) -> bool {
    exists|at: int| occurs_at(text, at, needle)
}

/// The strict lexicographic order on texts, character by character, a proper
/// prefix before the longer text.
pub open spec fn precedes(a: Seq<char>, b: Seq<char>) -> bool
    decreases a.len(),
{
    if b.len() == 0 {
        false
    } else if a.len() == 0 {
        true
    } else if a[0] != b[0] {
        a[0] < b[0]
    } else {
        precedes(a.skip(1), b.skip(1))
    }
}

/// No text comes before itself.
pub proof fn lemma_precedes_irreflexive(a: Seq<char>)
    ensures
        !precedes(a, a),
    decreases a.len(),
{
    if a.len() > 0 {
        lemma_precedes_irreflexive(a.skip(1));
    }
}

/// Of two different texts one comes before the other.
pub proof fn lemma_precedes_total(a: Seq<char>, b: Seq<char>)
    ensures
        a == b || precedes(a, b) || precedes(b, a),
    decreases a.len(),
{
    if a.len() == 0 || b.len() == 0 {
        if a.len() == 0 && b.len() == 0 {
            assert(a =~= b);
        }
    } else if a[0] == b[0] {
        let x = a.skip(1);
        let y = b.skip(1);
        lemma_precedes_total(x, y);
        if x == y {
            assert(a.len() == b.len()) by {
                assert(x.len() == a.len() - 1 && y.len() == b.len() - 1);
            }
            assert forall|i: int| 0 <= i < a.len() implies a[i] == b[i] by {
                if i > 0 {
                    assert(x[i - 1] == a[i]);
                    assert(y[i - 1] == b[i]);
                }
            }
            assert(a =~= b);
        }
    }
}

/// What comes before a text comes before all that the text comes before.
pub proof fn lemma_precedes_transitive(a: Seq<char>, b: Seq<char>, c: Seq<char>)
    requires
        precedes(a, b),
        precedes(b, c),
    ensures
        precedes(a, c),
    decreases a.len(),
{
    if a.len() > 0 && a[0] == b[0] && b[0] == c[0] {
        lemma_precedes_transitive(a.skip(1), b.skip(1), c.skip(1));
    }
}

/// The characters of `s`, in order.
pub fn chars_of(s: &str) -> (v: Vec<char>)
    ensures
        v@ == s@,
{
    let mut v: Vec<char> = Vec::new();
    for c in it: s.chars()
        invariant
            v@ == it.seq().take(it.index() as int),
            it.seq() == s@,
    {
        v.push(c);
    }
    v
}

/// Whether `needle` stands in `text` at position `at`.
pub fn found_at(text: &[char], at: usize, needle: &[char]) -> (found: bool)
    ensures
        found == occurs_at(text@, at as int, needle@),
{
    if at > text.len() || needle.len() > text.len() - at {
        return false;
    }
    let mut k: usize = 0;
    while k < needle.len()
        invariant
            k <= needle.len(),
            at + needle.len() <= text.len(),
            text@.subrange(at as int, at + k) == needle@.subrange(0, k as int),
        decreases needle.len() - k,
    {
        if text[at + k] != needle[k] {
            assert(text@.subrange(at as int, at + needle.len())[k as int] != needle@[k as int]);
            return false;
        }
        assert(text@.subrange(at as int, at + k + 1) =~= text@.subrange(at as int, at + k).push(
            text@[at + k],
        ));
        assert(needle@.subrange(0, k + 1) =~= needle@.subrange(0, k as int).push(needle@[k as int]));
        k += 1;
    }
    assert(needle@.subrange(0, k as int) =~= needle@);
    true
}

/// The first position at which `needle` stands in `text`.
pub fn find(text: &[char], needle: &[char]) -> (first: Option<usize>)
    ensures
        match first {
            Some(at) => occurs_at(text@, at as int, needle@) && forall|before: int|
                0 <= before < at ==> !occurs_at(text@, before, needle@),
            None => !occurs_in(text@, needle@),
        },
{
    if needle.len() > text.len() {
        return None;
    }
    let last: usize = text.len() - needle.len();
    let mut at: usize = 0;
    while at < last
        invariant
            last == text.len() - needle.len(),
            at <= last,
            forall|before: int| 0 <= before < at ==> !occurs_at(text@, before, needle@),
        decreases last - at,
    {
        if found_at(text, at, needle) {
            return Some(at);
        }
        at += 1;
    }
    if found_at(text, last, needle) {
        Some(last)
    } else {
        None
    }
}

/// Whether `text` begins with `prefix`.
pub fn starts_with(text: &[char], prefix: &[char]) -> (found: bool)
    ensures
        found == prefix@.is_prefix_of(text@),
{
    found_at(text, 0, prefix)
}

/// Whether `text` ends with `suffix`.
pub fn ends_with(text: &[char], suffix: &[char]) -> (found: bool)
    ensures
        found == suffix@.is_suffix_of(text@),
{
    if suffix.len() > text.len() {
        return false;
    }
    found_at(text, text.len() - suffix.len(), suffix)
}

/// Whether the two texts are the same.
pub fn same_text(a: &[char], b: &[char]) -> (same: bool)
    ensures
        same == (a@ == b@),
{
    if a.len() != b.len() {
        return false;
    }
    let found = found_at(a, 0, b);
    assert(a@.subrange(0, a@.len() as int) =~= a@);
    found
}

/// Whether the two strings hold the same text.
pub fn same(a: &str, b: &str) -> (same: bool)
    ensures
        same == (a@ == b@),
{
    let left = chars_of(a);
    let right = chars_of(b);
    same_text(left.as_slice(), right.as_slice())
}

/// Whether `a` comes before `b` in the lexicographic order.
pub fn comes_before(a: &[char], b: &[char]) -> (before: bool)
    ensures
        before == precedes(a@, b@),
{
    let mut k: usize = 0;
    assert(a@.skip(0) =~= a@ && b@.skip(0) =~= b@);
    while k < a.len() && k < b.len()
        invariant
            k <= a.len(),
            k <= b.len(),
            precedes(a@, b@) == precedes(a@.skip(k as int), b@.skip(k as int)),
        decreases a.len() - k,
    {
        assert(a@.skip(k as int)[0] == a@[k as int]);
        assert(b@.skip(k as int)[0] == b@[k as int]);
        if a[k] != b[k] {
            return a[k] < b[k];
        }
        assert(a@.skip(k as int).skip(1) =~= a@.skip(k + 1));
        assert(b@.skip(k as int).skip(1) =~= b@.skip(k + 1));
        k += 1;
    }
    k < b.len()
}

} // verus!

//! Ordinal ordering of text lines.

use std::cmp::Ordering;
use vstd::prelude::*;
use vstd::std_specs::iter::IteratorSpec;

verus! {

/// The code point of a character, as an integer.
pub open spec fn code_point(c: char) -> int {
    c as int
}

/// Whether one text precedes another: it is a proper prefix of the other,
/// or at the first place where the two differ its character has the smaller
/// code point. No collation takes part.
pub open spec fn text_lt(a: Seq<char>, b: Seq<char>) -> bool
    decreases a.len(),
{
    if b.len() == 0 {
        false
    } else if a.len() == 0 {
        true
    } else if a[0] != b[0] {
        code_point(a[0]) < code_point(b[0])
    } else {
        text_lt(a.skip(1), b.skip(1))
    }
}

/// No two texts precede each other, and two texts of which neither
/// precedes the other are the same text.
pub proof fn lemma_text_trichotomy(a: Seq<char>, b: Seq<char>)
    ensures
        !(text_lt(a, b) && text_lt(b, a)),
        !text_lt(a, b) && !text_lt(b, a) ==> a == b,
    decreases a.len(),
{
    if a.len() > 0 && b.len() > 0 {
        if a[0] == b[0] {
            lemma_text_trichotomy(a.skip(1), b.skip(1));
            if !text_lt(a, b) && !text_lt(b, a) {
                assert(a =~= seq![a[0]] + a.skip(1));
                assert(b =~= seq![b[0]] + b.skip(1));
            }
        }
    } else if a.len() == 0 && b.len() == 0 {
        assert(a =~= b);
    }
}

/// The order of texts is transitive.
pub proof fn lemma_text_lt_transitive(a: Seq<char>, b: Seq<char>, c: Seq<char>)
    requires
        text_lt(a, b),
        text_lt(b, c),
    ensures
        text_lt(a, c),
    decreases a.len(),
{
    if a.len() > 0 && b.len() > 0 && c.len() > 0 {
        if a[0] == b[0] && b[0] == c[0] {
            lemma_text_lt_transitive(a.skip(1), b.skip(1), c.skip(1));
        }
    }
}

/// Whether the first character precedes the second by code point.
fn char_precedes(x: char, y: char) -> (r: bool)
    ensures
        r == (code_point(x) < code_point(y)),
{
    let cx: u32 = x as u32;
    let cy: u32 = y as u32;
    cx < cy
}

/// Compares two texts by their code points, place by place.
pub fn compare_text(a: &str, b: &str) -> (o: Ordering)
    ensures
        (o == Ordering::Less) == text_lt(a@, b@),
        (o == Ordering::Greater) == text_lt(b@, a@),
        (o == Ordering::Equal) == (a@ == b@),
{
    let mut rest_a = a.chars();
    let mut rest_b = b.chars();
    proof {
        lemma_text_trichotomy(a@, b@);
    }
    loop
        invariant
            rest_a.obeys_prophetic_iter_laws(),
            rest_b.obeys_prophetic_iter_laws(),
            rest_a.decrease() is Some,
            text_lt(a@, b@) == text_lt(rest_a.remaining(), rest_b.remaining()),
            text_lt(b@, a@) == text_lt(rest_b.remaining(), rest_a.remaining()),
            !text_lt(a@, b@) && !text_lt(b@, a@) ==> a@ == b@,
            !(text_lt(a@, b@) && text_lt(b@, a@)),
        decreases rest_a.decrease()->0,
    {
        let next_a = rest_a.next();
        let next_b = rest_b.next();
        match (next_a, next_b) {
            (None, None) => {
                return Ordering::Equal;
            },
            (None, Some(_)) => {
                return Ordering::Less;
            },
            (Some(_), None) => {
                return Ordering::Greater;
            },
            (Some(x), Some(y)) => {
                if x != y {
                    if char_precedes(x, y) {
                        return Ordering::Less;
                    } else {
                        return Ordering::Greater;
                    }
                }
            },
        }
    }
}

} // verus!

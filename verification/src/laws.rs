//! What holds of every comparison: the vocabulary of the laws, and the laws
//! themselves in the modules below.

use crate::column::{Category, Classified};
use crate::order::text_lt;
use vstd::prelude::*;

pub mod classification;
pub mod columns;
pub mod letter_case;
pub mod round_trip;

verus! {

/// The texts of the lines of one category, in their order.
pub open spec fn column_texts(lines: Seq<Classified>, category: Category) -> Seq<Seq<char>>
    decreases lines.len(),
{
    if lines.len() == 0 {
        Seq::empty()
    } else {
        let rest = column_texts(lines.drop_first(), category);
        if lines[0].category == category {
            seq![lines[0].text] + rest
        } else {
            rest
        }
    }
}

/// The texts of the lines taken from the first input, in their order.
pub open spec fn left_texts(lines: Seq<Classified>) -> Seq<Seq<char>>
    decreases lines.len(),
{
    if lines.len() == 0 {
        Seq::empty()
    } else {
        let rest = left_texts(lines.drop_first());
        if lines[0].category.from_left() {
            seq![lines[0].text] + rest
        } else {
            rest
        }
    }
}

/// The texts of the lines taken from the second input, in their order.
pub open spec fn right_texts(lines: Seq<Classified>) -> Seq<Seq<char>>
    decreases lines.len(),
{
    if lines.len() == 0 {
        Seq::empty()
    } else {
        let rest = right_texts(lines.drop_first());
        if lines[0].category.from_right() {
            seq![lines[0].text] + rest
        } else {
            rest
        }
    }
}

/// The texts of classified lines, in their order.
pub open spec fn texts_of(lines: Seq<Classified>) -> Seq<Seq<char>> {
    Seq::new(lines.len(), |i: int| lines[i].text)
}

/// The given lines, all classified alike.
pub open spec fn all_of(lines: Seq<Seq<char>>, category: Category) -> Seq<Classified> {
    Seq::new(lines.len(), |i: int| Classified { category, text: lines[i] })
}

/// How often a text occurs among lines.
pub open spec fn occurrences(lines: Seq<Seq<char>>, text: Seq<char>) -> nat
    decreases lines.len(),
{
    if lines.len() == 0 {
        0
    } else {
        let rest = occurrences(lines.drop_first(), text);
        if lines[0] == text {
            rest + 1
        } else {
            rest
        }
    }
}

/// The lesser of two counts.
pub open spec fn lesser(a: nat, b: nat) -> nat {
    if a <= b {
        a
    } else {
        b
    }
}

/// Whether no line precedes an earlier line.
pub open spec fn sorted(lines: Seq<Seq<char>>) -> bool {
    forall|i: int, j: int| 0 <= i < j < lines.len() ==> !text_lt(lines[j], lines[i])
}

/// Whether no line of the given ones precedes the bound.
pub open spec fn none_before(lines: Seq<Seq<char>>, bound: Seq<char>) -> bool {
    forall|i: int| 0 <= i < lines.len() ==> !text_lt(#[trigger] lines[i], bound)
}

} // verus!

//! What the lines of an input are: every record that is text, and how
//! letter case decides whether two lines are the same.

use crate::column::{Category, Classified};
use crate::merge::merge;
use crate::order::{lemma_text_trichotomy, text_lt};
use crate::source::{lines_of, lowercase};
use vstd::prelude::*;

verus! {

/// Records that are all text yield every line, unchanged when case counts:
/// nothing is dropped but what could not be read.
pub proof fn lemma_clean_records(lines: Seq<Seq<char>>)
    ensures
        lines_of(Seq::new(lines.len(), |i: int| Some(lines[i])), false) == lines,
    decreases lines.len(),
{
    let records = Seq::new(lines.len(), |i: int| Some(lines[i]));
    if lines.len() > 0 {
        let rest = lines.drop_first();
        lemma_clean_records(rest);
        assert(records.drop_first() =~= Seq::new(rest.len(), |i: int| Some(rest[i])));
        assert(seq![lines[0]] + rest =~= lines);
    } else {
        assert(lines_of(records, false) =~= lines);
    }
}

/// Letter case: when case is disregarded, two lines with the same lowercase
/// form are one common line, printed in that form. When case counts, two
/// lines that differ are each found on their own side only, the lesser
/// first.
pub proof fn lemma_letter_case(a: Seq<char>, b: Seq<char>)
    ensures
        lowercase(a) == lowercase(b) ==> merge(
            lines_of(seq![Some(a)], true),
            lines_of(seq![Some(b)], true),
        ) == seq![Classified { category: Category::Common, text: lowercase(a) }],
        a != b ==> merge(lines_of(seq![Some(a)], false), lines_of(seq![Some(b)], false)) == if text_lt(
            a,
            b,
        ) {
            seq![
                Classified { category: Category::LeftOnly, text: a },
                Classified { category: Category::RightOnly, text: b },
            ]
        } else {
            seq![
                Classified { category: Category::RightOnly, text: b },
                Classified { category: Category::LeftOnly, text: a },
            ]
        },
{
    reveal_with_fuel(lines_of, 2);
    reveal_with_fuel(merge, 3);
    lemma_text_trichotomy(a, b);
    lemma_text_trichotomy(lowercase(a), lowercase(a));
    let none = Seq::<Seq<char>>::empty();
    assert(seq![Some(a)].drop_first() =~= Seq::<Option<Seq<char>>>::empty());
    assert(seq![Some(b)].drop_first() =~= Seq::<Option<Seq<char>>>::empty());
    assert(lines_of(seq![Some(a)], true) =~= seq![lowercase(a)]);
    assert(lines_of(seq![Some(b)], true) =~= seq![lowercase(b)]);
    assert(lines_of(seq![Some(a)], false) =~= seq![a]);
    assert(lines_of(seq![Some(b)], false) =~= seq![b]);
    assert(seq![a].drop_first() =~= none);
    assert(seq![b].drop_first() =~= none);
    assert(seq![lowercase(a)].drop_first() =~= none);
    assert(seq![lowercase(b)].drop_first() =~= none);
    if lowercase(a) == lowercase(b) {
        assert(merge(seq![lowercase(a)], seq![lowercase(b)]) =~= seq![
            Classified { category: Category::Common, text: lowercase(a) },
        ]);
    }
    if a != b {
        if text_lt(a, b) {
            assert(merge(none, seq![b]) =~= seq![
                Classified { category: Category::RightOnly, text: b },
            ]);
            assert(merge(seq![a], seq![b]) =~= seq![
                Classified { category: Category::LeftOnly, text: a },
                Classified { category: Category::RightOnly, text: b },
            ]);
        } else {
            assert(merge(seq![a], none) =~= seq![
                Classified { category: Category::LeftOnly, text: a },
            ]);
            assert(merge(seq![a], seq![b]) =~= seq![
                Classified { category: Category::RightOnly, text: b },
                Classified { category: Category::LeftOnly, text: a },
            ]);
        }
    }
}

} // verus!

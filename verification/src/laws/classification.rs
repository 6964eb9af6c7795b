//! Where the lines of the two inputs go: every line is classified once, a
//! line of one input only stays on its side, and sorted inputs share their
//! common lines.

use crate::column::{Category, Classified};
use crate::laws::{
    all_of, column_texts, left_texts, lesser, none_before, occurrences, right_texts, sorted,
    texts_of,
};
use crate::merge::{head, merge, next_line};
use crate::order::{lemma_text_lt_transitive, lemma_text_trichotomy, text_lt};
use vstd::prelude::*;

verus! {

/// Every line of each input is classified exactly once and in its place:
/// the lines taken from the first input are the first input, and the lines
/// taken from the second input are the second input. This holds whether or
/// not the inputs are sorted.
pub proof fn lemma_merge_keeps_inputs(left: Seq<Seq<char>>, right: Seq<Seq<char>>)
    ensures
        left_texts(merge(left, right)) == left,
        right_texts(merge(left, right)) == right,
    decreases left.len() + right.len(),
{
    match next_line(head(left), head(right)) {
        None => {
            assert(left =~= Seq::empty());
            assert(right =~= Seq::empty());
        },
        Some(line) => {
            let left_rest = if line.category.from_left() {
                left.drop_first()
            } else {
                left
            };
            let right_rest = if line.category.from_right() {
                right.drop_first()
            } else {
                right
            };
            lemma_merge_keeps_inputs(left_rest, right_rest);
            let merged = merge(left, right);
            assert(merged.drop_first() =~= merge(left_rest, right_rest));
            if left.len() > 0 && right.len() > 0 {
                lemma_text_trichotomy(left[0], right[0]);
            }
            if line.category.from_left() {
                assert(left =~= seq![left[0]] + left.drop_first());
            }
            if line.category.from_right() {
                assert(right =~= seq![right[0]] + right.drop_first());
            }
        },
    }
}

/// When one input is empty, every line of the other is found on its own
/// side only, in its order, and no line is common.
pub proof fn lemma_one_input_empty(lines: Seq<Seq<char>>)
    ensures
        merge(lines, Seq::empty()) == all_of(lines, Category::LeftOnly),
        merge(Seq::empty(), lines) == all_of(lines, Category::RightOnly),
    decreases lines.len(),
{
    let none = Seq::<Seq<char>>::empty();
    if lines.len() > 0 {
        let rest = lines.drop_first();
        lemma_one_input_empty(rest);
        assert(merge(lines, none) =~= all_of(lines, Category::LeftOnly)) by {
            assert(merge(lines, none) == seq![
                Classified { category: Category::LeftOnly, text: lines[0] },
            ] + merge(rest, none));
        }
        assert(merge(none, lines) =~= all_of(lines, Category::RightOnly)) by {
            assert(merge(none, lines) == seq![
                Classified { category: Category::RightOnly, text: lines[0] },
            ] + merge(none, rest));
        }
    } else {
        assert(merge(lines, none) =~= all_of(lines, Category::LeftOnly));
        assert(merge(none, lines) =~= all_of(lines, Category::RightOnly));
    }
}

/// Counting in a sequence that begins with one more line.
proof fn lemma_occurrences_step(first: Seq<char>, rest: Seq<Seq<char>>, text: Seq<char>)
    ensures
        occurrences(seq![first] + rest, text) == occurrences(rest, text) + if first == text {
            1nat
        } else {
            0nat
        },
{
    assert((seq![first] + rest).drop_first() =~= rest);
}

/// The texts of a column when one more classified line stands in front.
proof fn lemma_column_texts_step(line: Classified, rest: Seq<Classified>, category: Category)
    ensures
        column_texts(seq![line] + rest, category) == if line.category == category {
            seq![line.text] + column_texts(rest, category)
        } else {
            column_texts(rest, category)
        },
{
    assert((seq![line] + rest).drop_first() =~= rest);
}

/// Every occurrence of a text in an input is classified exactly once: on
/// its own side only, or as common together with one occurrence in the other
/// input. This holds whether or not the inputs are sorted.
pub proof fn lemma_every_line_classified_once(
    left: Seq<Seq<char>>,
    right: Seq<Seq<char>>,
    text: Seq<char>,
)
    ensures
        occurrences(left, text) == occurrences(
            column_texts(merge(left, right), Category::LeftOnly),
            text,
        ) + occurrences(column_texts(merge(left, right), Category::Common), text),
        occurrences(right, text) == occurrences(
            column_texts(merge(left, right), Category::RightOnly),
            text,
        ) + occurrences(column_texts(merge(left, right), Category::Common), text),
    decreases left.len() + right.len(),
{
    match next_line(head(left), head(right)) {
        None => {},
        Some(line) => {
            let left_rest = if line.category.from_left() {
                left.drop_first()
            } else {
                left
            };
            let right_rest = if line.category.from_right() {
                right.drop_first()
            } else {
                right
            };
            let rest = merge(left_rest, right_rest);
            lemma_every_line_classified_once(left_rest, right_rest, text);
            if left.len() > 0 && right.len() > 0 {
                lemma_text_trichotomy(left[0], right[0]);
            }
            lemma_column_texts_step(line, rest, Category::LeftOnly);
            lemma_column_texts_step(line, rest, Category::RightOnly);
            lemma_column_texts_step(line, rest, Category::Common);
            lemma_occurrences_step(line.text, column_texts(rest, line.category), text);
        },
    }
}

/// A text that occurs in one input only is found on that side only, as
/// often as it occurs there: none of its occurrences is dropped, doubled or
/// counted as common. This holds whether or not the inputs are sorted.
pub proof fn lemma_unique_lines(left: Seq<Seq<char>>, right: Seq<Seq<char>>, text: Seq<char>)
    ensures
        occurrences(right, text) == 0 ==> {
            &&& occurrences(column_texts(merge(left, right), Category::LeftOnly), text)
                == occurrences(left, text)
            &&& occurrences(column_texts(merge(left, right), Category::RightOnly), text) == 0
            &&& occurrences(column_texts(merge(left, right), Category::Common), text) == 0
        },
        occurrences(left, text) == 0 ==> {
            &&& occurrences(column_texts(merge(left, right), Category::RightOnly), text)
                == occurrences(right, text)
            &&& occurrences(column_texts(merge(left, right), Category::LeftOnly), text) == 0
            &&& occurrences(column_texts(merge(left, right), Category::Common), text) == 0
        },
{
    lemma_every_line_classified_once(left, right, text);
}

/// A text that equals no line occurs no times.
proof fn lemma_absent_text(lines: Seq<Seq<char>>, text: Seq<char>)
    requires
        forall|i: int| 0 <= i < lines.len() ==> lines[i] != text,
    ensures
        occurrences(lines, text) == 0,
    decreases lines.len(),
{
    if lines.len() > 0 {
        assert forall|i: int| 0 <= i < lines.drop_first().len() implies lines.drop_first()[i]
            != text by {
            assert(lines.drop_first()[i] == lines[i + 1]);
        }
        lemma_absent_text(lines.drop_first(), text);
    }
}

/// What follows the first line of a sorted input is sorted.
proof fn lemma_sorted_rest(lines: Seq<Seq<char>>)
    requires
        sorted(lines),
        lines.len() > 0,
    ensures
        sorted(lines.drop_first()),
{
    let rest = lines.drop_first();
    assert forall|i: int, j: int| 0 <= i < j < rest.len() implies !text_lt(rest[j], rest[i]) by {
        assert(rest[i] == lines[i + 1]);
        assert(rest[j] == lines[j + 1]);
    }
}

/// A text that precedes the first line of a sorted input occurs nowhere in it.
proof fn lemma_text_before_sorted(lines: Seq<Seq<char>>, text: Seq<char>)
    requires
        sorted(lines),
        lines.len() > 0 ==> text_lt(text, lines[0]),
    ensures
        occurrences(lines, text) == 0,
{
    lemma_text_trichotomy(text, text);
    assert forall|i: int| 0 <= i < lines.len() implies lines[i] != text by {
        if lines[i] == text {
            if i > 0 {
                assert(!text_lt(lines[i], lines[0]));
            }
        }
    }
    lemma_absent_text(lines, text);
}

/// In the comparison of two sorted inputs no text is found both on the first
/// side only and on the second side only.
proof fn lemma_sides_disjoint(left: Seq<Seq<char>>, right: Seq<Seq<char>>, text: Seq<char>)
    requires
        sorted(left),
        sorted(right),
    ensures
        occurrences(column_texts(merge(left, right), Category::LeftOnly), text) == 0
            || occurrences(column_texts(merge(left, right), Category::RightOnly), text) == 0,
    decreases left.len() + right.len(),
{
    match next_line(head(left), head(right)) {
        None => {},
        Some(line) => {
            let left_rest = if line.category.from_left() {
                left.drop_first()
            } else {
                left
            };
            let right_rest = if line.category.from_right() {
                right.drop_first()
            } else {
                right
            };
            let rest = merge(left_rest, right_rest);
            if line.category.from_left() {
                lemma_sorted_rest(left);
            }
            if line.category.from_right() {
                lemma_sorted_rest(right);
            }
            lemma_sides_disjoint(left_rest, right_rest, text);
            lemma_every_line_classified_once(left_rest, right_rest, text);
            lemma_column_texts_step(line, rest, Category::LeftOnly);
            lemma_column_texts_step(line, rest, Category::RightOnly);
            lemma_occurrences_step(line.text, column_texts(rest, line.category), text);
            if line.text == text {
                if line.category == Category::LeftOnly {
                    lemma_text_before_sorted(right, text);
                } else if line.category == Category::RightOnly {
                    lemma_text_before_sorted(left, text);
                }
            }
        },
    }
}

/// For sorted inputs, a text occurs among the common lines as often as it
/// occurs in both inputs: as often as in the input that has it less often.
/// The common lines stand in the order of the merge.
pub proof fn lemma_common_lines(left: Seq<Seq<char>>, right: Seq<Seq<char>>, text: Seq<char>)
    requires
        sorted(left),
        sorted(right),
    ensures
        occurrences(column_texts(merge(left, right), Category::Common), text) == lesser(
            occurrences(left, text),
            occurrences(right, text),
        ),
{
    lemma_every_line_classified_once(left, right, text);
    lemma_sides_disjoint(left, right, text);
}

/// Where no line of either input precedes a bound, no classified line does.
proof fn lemma_merge_not_before(left: Seq<Seq<char>>, right: Seq<Seq<char>>, bound: Seq<char>)
    requires
        none_before(left, bound),
        none_before(right, bound),
    ensures
        none_before(texts_of(merge(left, right)), bound),
    decreases left.len() + right.len(),
{
    match next_line(head(left), head(right)) {
        None => {},
        Some(line) => {
            let left_rest = if line.category.from_left() {
                left.drop_first()
            } else {
                left
            };
            let right_rest = if line.category.from_right() {
                right.drop_first()
            } else {
                right
            };
            assert forall|i: int| 0 <= i < left_rest.len() implies !text_lt(
                #[trigger] left_rest[i],
                bound,
            ) by {
                if line.category.from_left() {
                    assert(left_rest[i] == left[i + 1]);
                }
            }
            assert forall|i: int| 0 <= i < right_rest.len() implies !text_lt(
                #[trigger] right_rest[i],
                bound,
            ) by {
                if line.category.from_right() {
                    assert(right_rest[i] == right[i + 1]);
                }
            }
            lemma_merge_not_before(left_rest, right_rest, bound);
            let merged = texts_of(merge(left, right));
            let rest = texts_of(merge(left_rest, right_rest));
            assert(line.text == if line.category.from_left() {
                left[0]
            } else {
                right[0]
            });
            assert forall|i: int| 0 <= i < merged.len() implies !text_lt(
                #[trigger] merged[i],
                bound,
            ) by {
                if i > 0 {
                    assert(merged[i] == rest[i - 1]);
                }
            }
        },
    }
}

/// No line of a sorted input precedes its first line, nor a text that is
/// or precedes that line.
proof fn lemma_sorted_after_head(lines: Seq<Seq<char>>, bound: Seq<char>)
    requires
        sorted(lines),
        lines.len() > 0,
        bound == lines[0] || text_lt(bound, lines[0]),
    ensures
        none_before(lines, bound),
        none_before(lines.drop_first(), bound),
{
    lemma_text_trichotomy(bound, lines[0]);
    lemma_text_trichotomy(bound, bound);
    assert forall|i: int| 0 <= i < lines.len() implies !text_lt(#[trigger] lines[i], bound) by {
        if i > 0 {
            assert(!text_lt(lines[i], lines[0]));
        }
        if text_lt(lines[i], bound) && text_lt(bound, lines[0]) {
            lemma_text_lt_transitive(lines[i], bound, lines[0]);
        }
    }
    assert forall|i: int| 0 <= i < lines.drop_first().len() implies !text_lt(
        #[trigger] lines.drop_first()[i],
        bound,
    ) by {
        assert(lines.drop_first()[i] == lines[i + 1]);
    }
}

/// For sorted inputs the classified lines stand in sorted order: the merge
/// goes through both inputs in the one order they share.
pub proof fn lemma_merge_sorted(left: Seq<Seq<char>>, right: Seq<Seq<char>>)
    requires
        sorted(left),
        sorted(right),
    ensures
        sorted(texts_of(merge(left, right))),
    decreases left.len() + right.len(),
{
    match next_line(head(left), head(right)) {
        None => {},
        Some(line) => {
            let left_rest = if line.category.from_left() {
                left.drop_first()
            } else {
                left
            };
            let right_rest = if line.category.from_right() {
                right.drop_first()
            } else {
                right
            };
            if left.len() > 0 {
                lemma_sorted_rest(left);
            }
            if right.len() > 0 {
                lemma_sorted_rest(right);
            }
            if left.len() > 0 && right.len() > 0 {
                lemma_text_trichotomy(left[0], right[0]);
            }
            if left.len() > 0 {
                lemma_sorted_after_head(left, line.text);
            }
            if right.len() > 0 {
                lemma_sorted_after_head(right, line.text);
            }
            lemma_merge_sorted(left_rest, right_rest);
            lemma_merge_not_before(left_rest, right_rest, line.text);
            let merged = texts_of(merge(left, right));
            let rest = texts_of(merge(left_rest, right_rest));
            assert forall|i: int, j: int| 0 <= i < j < merged.len() implies !text_lt(
                merged[j],
                merged[i],
            ) by {
                assert(merged[j] == rest[j - 1]);
                if i > 0 {
                    assert(merged[i] == rest[i - 1]);
                }
            }
        },
    }
}

} // verus!

//! The merge that classifies every line of two inputs.

use crate::column::{Category, Classified, Column};
use crate::order::{compare_text, text_lt};
use std::cmp::Ordering;
use vstd::prelude::*;

verus! {

/// The first line of a sequence, if it has one.
pub open spec fn head(lines: Seq<Seq<char>>) -> Option<Seq<char>> {
    if lines.len() > 0 {
        Some(lines[0])
    } else {
        None
    }
}

/// The classification of the next line, given the pending line of each
/// input (`None` for an input that is exhausted). With a line pending on
/// both sides the smaller one is found on its own side only, and equal lines
/// are common. With one side exhausted the other side's line is its own.
/// With both exhausted there is no next line.
pub open spec fn next_line(left: Option<Seq<char>>, right: Option<Seq<char>>) -> Option<
    Classified,
> {
    match (left, right) {
        (Some(l), Some(r)) => if text_lt(l, r) {
            Some(Classified { category: Category::LeftOnly, text: l })
        } else if text_lt(r, l) {
            Some(Classified { category: Category::RightOnly, text: r })
        } else {
            Some(Classified { category: Category::Common, text: l })
        },
        (Some(l), None) => Some(Classified { category: Category::LeftOnly, text: l }),
        (None, Some(r)) => Some(Classified { category: Category::RightOnly, text: r }),
        (None, None) => None,
    }
}

/// The lines of two inputs, classified in the order of the merge: the next
/// line is classified from the two pending lines, each input it was taken
/// from moves on by one line, and so on until both are exhausted.
pub open spec fn merge(left: Seq<Seq<char>>, right: Seq<Seq<char>>) -> Seq<Classified>
    decreases left.len() + right.len(),
{
    match next_line(head(left), head(right)) {
        None => Seq::empty(),
        Some(line) => {
            let left_rest = if line.category.from_left() {
                left.drop_first()
            } else {
                left
            };
            let right_rest = if line.category.from_right() {
                right.drop_first()
            } else {
                right
            };
            seq![line] + merge(left_rest, right_rest)
        },
    }
}

/// Classifies the next line from the pending line of each input, or reports
/// that both inputs are exhausted. The input or inputs that the line was
/// taken from then move on to their next line.
pub fn classify<'a>(left: Option<&'a str>, right: Option<&'a str>) -> (next: Option<Column<'a>>)
    ensures
        next.deep_view() == next_line(left.deep_view(), right.deep_view()),
{
    match (left, right) {
        (Some(l), Some(r)) => match compare_text(l, r) {
            Ordering::Less => Some(Column::Col1(l)),
            Ordering::Greater => Some(Column::Col2(r)),
            Ordering::Equal => Some(Column::Col3(l)),
        },
        (Some(l), None) => Some(Column::Col1(l)),
        (None, Some(r)) => Some(Column::Col2(r)),
        (None, None) => None,
    }
}

/// The pending line of an input of which `taken` lines have been taken.
fn pending<'a>(lines: &'a Vec<String>, taken: usize) -> (line: Option<&'a str>)
    requires
        taken <= lines.len(),
    ensures
        line.deep_view() == head(lines.deep_view().skip(taken as int)),
{
    if taken < lines.len() {
        Some(lines[taken].as_str())
    } else {
        None
    }
}

/// Classifies every line of two inputs by merging them.
pub fn compare<'a>(left: &'a Vec<String>, right: &'a Vec<String>) -> (columns: Vec<Column<'a>>)
    ensures
        columns.deep_view() == merge(left.deep_view(), right.deep_view()),
{
    let mut columns: Vec<Column<'a>> = Vec::new();
    let mut taken_left: usize = 0;
    let mut taken_right: usize = 0;
    proof {
        assert(left.deep_view().skip(0) =~= left.deep_view());
        assert(right.deep_view().skip(0) =~= right.deep_view());
        assert(columns.deep_view() =~= Seq::<Classified>::empty());
    }
    loop
        invariant
            taken_left <= left.len(),
            taken_right <= right.len(),
            columns.deep_view() + merge(
                left.deep_view().skip(taken_left as int),
                right.deep_view().skip(taken_right as int),
            ) == merge(left.deep_view(), right.deep_view()),
        ensures
            columns.deep_view() == merge(left.deep_view(), right.deep_view()),
        decreases (left.len() - taken_left) + (right.len() - taken_right),
    {
        let ghost found = columns.deep_view();
        let ghost left_pending = left.deep_view().skip(taken_left as int);
        let ghost right_pending = right.deep_view().skip(taken_right as int);
        match classify(pending(left, taken_left), pending(right, taken_right)) {
            None => {
                proof {
                    assert(found + Seq::<Classified>::empty() =~= found);
                }
                break ;
            },
            Some(column) => {
                columns.push(column);
                if column.from_left() {
                    taken_left = taken_left + 1;
                }
                if column.from_right() {
                    taken_right = taken_right + 1;
                }
                proof {
                    let rest = merge(
                        left.deep_view().skip(taken_left as int),
                        right.deep_view().skip(taken_right as int),
                    );
                    assert(left_pending.drop_first() =~= left.deep_view().skip(
                        taken_left as int,
                    ) || !column@.category.from_left());
                    assert(right_pending.drop_first() =~= right.deep_view().skip(
                        taken_right as int,
                    ) || !column@.category.from_right());
                    assert(columns.deep_view() =~= found + seq![column@]);
                    assert(columns.deep_view() + rest =~= found + (seq![column@] + rest));
                }
            },
        }
    }
    columns
}

} // verus!

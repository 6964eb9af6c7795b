//! Reading the output back: with every column shown and a tab between
//! them, the printed rows give both inputs again.

use crate::cli::CliView;
use crate::column::{joined, output_of, repeated, row_of, rows_of, Category, Classified};
use crate::laws::classification::lemma_merge_keeps_inputs;
use crate::laws::{left_texts, right_texts};
use crate::merge::{head, merge, next_line};
use vstd::prelude::*;

verus! {

/// Whether a text begins with a tab.
pub open spec fn starts_with_tab(text: Seq<char>) -> bool {
    text.len() > 0 && text[0] == '\t'
}

/// Whether all three columns are shown and the delimiter is a single tab.
pub open spec fn shows_all_with_tabs(cfg: CliView) -> bool {
    &&& cfg.show_col1
    &&& cfg.show_col2
    &&& cfg.show_col3
    &&& cfg.delimiter == seq!['\t']
}

/// The classified line that a row stands for when all three columns are
/// shown and the delimiter is a single tab: the row's leading tabs, two at
/// most, tell the column, and what follows them, less the line feed, is the
/// text.
pub open spec fn read_row(row: Seq<char>) -> Classified {
    let body = row.drop_last();
    if starts_with_tab(body) && starts_with_tab(body.drop_first()) {
        Classified { category: Category::Common, text: body.skip(2) }
    } else if starts_with_tab(body) {
        Classified { category: Category::RightOnly, text: body.drop_first() }
    } else {
        Classified { category: Category::LeftOnly, text: body }
    }
}

/// The classified lines that rows stand for, row by row.
pub open spec fn read_rows(rows: Seq<Seq<char>>) -> Seq<Classified> {
    Seq::new(rows.len(), |i: int| read_row(rows[i]))
}

/// Whether the column of a line can be told from its row: a line found on
/// one side only must not itself begin with a tab, which would be read as a
/// delimiter.
pub open spec fn tells_its_column(line: Classified) -> bool {
    line.category == Category::Common || !starts_with_tab(line.text)
}

/// With all three columns shown and a tab as delimiter, a row read back
/// gives the line it was printed for, provided the line tells its column.
pub proof fn lemma_row_reads_back(cfg: CliView, line: Classified)
    requires
        shows_all_with_tabs(cfg),
        tells_its_column(line),
    ensures
        row_of(cfg, line) is Some,
        read_row(row_of(cfg, line)->0) == line,
{
    reveal_with_fuel(repeated, 3);
    let row = row_of(cfg, line)->0;
    let body = row.drop_last();
    let tab = seq!['\t'];
    match line.category {
        Category::LeftOnly => {
            assert(body =~= line.text);
        },
        Category::RightOnly => {
            assert(body =~= tab + line.text);
            assert(body.drop_first() =~= line.text);
        },
        Category::Common => {
            assert(body =~= tab + tab + line.text);
            assert(body.drop_first() =~= tab + line.text);
            assert(body.skip(2) =~= line.text);
        },
    }
}

/// With all three columns shown and a tab as delimiter, the rows of any
/// lines that tell their column read back as those lines.
pub proof fn lemma_rows_read_back(cfg: CliView, lines: Seq<Classified>)
    requires
        shows_all_with_tabs(cfg),
        forall|i: int| 0 <= i < lines.len() ==> tells_its_column(#[trigger] lines[i]),
    ensures
        read_rows(rows_of(cfg, lines)) == lines,
    decreases lines.len(),
{
    if lines.len() > 0 {
        let before = lines.drop_last();
        assert forall|i: int| 0 <= i < before.len() implies tells_its_column(
            #[trigger] before[i],
        ) by {
            assert(before[i] == lines[i]);
        }
        lemma_rows_read_back(cfg, before);
        lemma_row_reads_back(cfg, lines.last());
        assert(read_rows(rows_of(cfg, lines)) =~= read_rows(rows_of(cfg, before)).push(
            lines.last(),
        ));
        assert(before.push(lines.last()) =~= lines);
    } else {
        assert(read_rows(rows_of(cfg, lines)) =~= lines);
    }
}

/// The round trip: with all three columns shown and a tab as delimiter, the
/// rows printed for two inputs, read back column by column, give both inputs
/// again, line for line. A line that is found on one side only and begins
/// with a tab cannot be told from a line of a later column; the round trip
/// is claimed for every comparison that classifies no such line. The inputs
/// need not be sorted.
pub proof fn lemma_round_trip(cfg: CliView, left: Seq<Seq<char>>, right: Seq<Seq<char>>)
    requires
        shows_all_with_tabs(cfg),
        forall|i: int|
            0 <= i < merge(left, right).len() ==> tells_its_column(
                #[trigger] merge(left, right)[i],
            ),
    ensures
        read_rows(rows_of(cfg, merge(left, right))) == merge(left, right),
        left_texts(read_rows(rows_of(cfg, merge(left, right)))) == left,
        right_texts(read_rows(rows_of(cfg, merge(left, right)))) == right,
{
    lemma_rows_read_back(cfg, merge(left, right));
    lemma_merge_keeps_inputs(left, right);
}

/// Whether a text holds no line feed.
pub open spec fn feedless(text: Seq<char>) -> bool {
    forall|i: int| 0 <= i < text.len() ==> text[i] != '\n'
}

/// Whether a text is one row: it ends with a line feed and holds no other.
pub open spec fn is_row(text: Seq<char>) -> bool {
    text.len() > 0 && text.last() == '\n' && feedless(text.drop_last())
}

/// Where a row begins that ends at `end`: just behind the nearest line feed
/// before `end`, or at the start of the text where there is none.
pub open spec fn row_start(text: Seq<char>, end: int) -> int
    decreases end,
{
    if end <= 0 {
        0
    } else if text[end - 1] == '\n' {
        end
    } else {
        row_start(text, end - 1)
    }
}

/// The rows that an output text consists of, each with its line feed.
pub open spec fn rows_in(text: Seq<char>) -> Seq<Seq<char>>
    decreases text.len(),
    via rows_in_decreases
{
    if text.len() == 0 {
        Seq::empty()
    } else {
        let start = row_start(text, text.len() - 1);
        rows_in(text.take(start)).push(text.skip(start))
    }
}

/// The last row of a text that is not empty begins before the text's end.
#[via_fn]
proof fn rows_in_decreases(text: Seq<char>) {
    if text.len() > 0 {
        lemma_row_start_bounds(text, text.len() - 1);
    }
}

/// A row begins within the text, at or before the place it was sought from.
proof fn lemma_row_start_bounds(text: Seq<char>, end: int)
    requires
        0 <= end <= text.len(),
    ensures
        0 <= row_start(text, end) <= end,
    decreases end,
{
    if end > 0 && text[end - 1] != '\n' {
        lemma_row_start_bounds(text, end - 1);
    }
}

/// A row that follows whole rows begins where they end.
proof fn lemma_row_start_found(before: Seq<char>, row: Seq<char>, end: int)
    requires
        before.len() == 0 || before.last() == '\n',
        is_row(row),
        before.len() <= end < before.len() + row.len(),
    ensures
        row_start(before + row, end) == before.len(),
    decreases end,
{
    let text = before + row;
    if end > before.len() {
        assert(text[end - 1] == row.drop_last()[end - 1 - before.len()]);
        lemma_row_start_found(before, row, end - 1);
    } else if end > 0 {
        assert(text[end - 1] == before.last());
    }
}

/// Joined rows are empty or end with a line feed.
proof fn lemma_joined_rows_end(rows: Seq<Seq<char>>)
    requires
        forall|i: int| 0 <= i < rows.len() ==> is_row(#[trigger] rows[i]),
    ensures
        joined(rows).len() == 0 || joined(rows).last() == '\n',
{
    if rows.len() > 0 {
        assert(is_row(rows.last()));
    }
}

/// An output text made of rows falls apart into those rows again.
pub proof fn lemma_rows_in_joined(rows: Seq<Seq<char>>)
    requires
        forall|i: int| 0 <= i < rows.len() ==> is_row(#[trigger] rows[i]),
    ensures
        rows_in(joined(rows)) == rows,
    decreases rows.len(),
{
    if rows.len() > 0 {
        let before = rows.drop_last();
        let row = rows.last();
        assert(is_row(row));
        assert forall|i: int| 0 <= i < before.len() implies is_row(#[trigger] before[i]) by {
            assert(before[i] == rows[i]);
        }
        lemma_rows_in_joined(before);
        lemma_joined_rows_end(before);
        let text = joined(rows);
        lemma_row_start_found(joined(before), row, text.len() - 1);
        assert(text.take(joined(before).len() as int) =~= joined(before));
        assert(text.skip(joined(before).len() as int) =~= row);
        assert(before.push(row) =~= rows);
    }
}

/// Tabs, however many, hold no line feed.
proof fn lemma_repeated_tabs_feedless(count: nat)
    ensures
        feedless(repeated(seq!['\t'], count)),
    decreases count,
{
    if count > 0 {
        lemma_repeated_tabs_feedless((count - 1) as nat);
    }
}

/// With a tab as delimiter, lines without a line feed are printed as rows.
proof fn lemma_tabbed_rows(cfg: CliView, lines: Seq<Classified>)
    requires
        cfg.delimiter == seq!['\t'],
        forall|i: int| 0 <= i < lines.len() ==> feedless(#[trigger] lines[i].text),
    ensures
        forall|i: int|
            0 <= i < rows_of(cfg, lines).len() ==> is_row(#[trigger] rows_of(cfg, lines)[i]),
    decreases lines.len(),
{
    if lines.len() > 0 {
        let before = lines.drop_last();
        let line = lines.last();
        assert forall|i: int| 0 <= i < before.len() implies feedless(
            #[trigger] before[i].text,
        ) by {
            assert(before[i] == lines[i]);
        }
        lemma_tabbed_rows(cfg, before);
        if row_of(cfg, line) is Some {
            let row = row_of(cfg, line)->0;
            let tabs = repeated(cfg.delimiter, cfg.shown_before(line.category));
            lemma_repeated_tabs_feedless(cfg.shown_before(line.category));
            assert(feedless(line.text));
            assert(row.drop_last() =~= tabs + line.text);
            assert(is_row(row));
        }
        let rows = rows_of(cfg, lines);
        let earlier = rows_of(cfg, before);
        assert forall|i: int| 0 <= i < rows.len() implies is_row(#[trigger] rows[i]) by {
            if i < earlier.len() {
                assert(rows[i] == earlier[i]);
            }
        }
    }
}

/// Where no line of either input holds a line feed, no classified line does.
proof fn lemma_merge_feedless(left: Seq<Seq<char>>, right: Seq<Seq<char>>)
    requires
        forall|i: int| 0 <= i < left.len() ==> feedless(#[trigger] left[i]),
        forall|i: int| 0 <= i < right.len() ==> feedless(#[trigger] right[i]),
    ensures
        forall|i: int|
            0 <= i < merge(left, right).len() ==> feedless(#[trigger] merge(left, right)[i].text),
    decreases left.len() + right.len(),
{
    match next_line(head(left), head(right)) {
        None => {},
        Some(line) => {
            let left_rest = if line.category.from_left() {
                left.drop_first()
            } else {
                left
            };
            let right_rest = if line.category.from_right() {
                right.drop_first()
            } else {
                right
            };
            assert forall|i: int| 0 <= i < left_rest.len() implies feedless(
                #[trigger] left_rest[i],
            ) by {
                if line.category.from_left() {
                    assert(left_rest[i] == left[i + 1]);
                }
            }
            assert forall|i: int| 0 <= i < right_rest.len() implies feedless(
                #[trigger] right_rest[i],
            ) by {
                if line.category.from_right() {
                    assert(right_rest[i] == right[i + 1]);
                }
            }
            lemma_merge_feedless(left_rest, right_rest);
            let merged = merge(left, right);
            let rest = merge(left_rest, right_rest);
            assert(line.text == if line.category.from_left() {
                left[0]
            } else {
                right[0]
            });
            assert forall|i: int| 0 <= i < merged.len() implies feedless(
                #[trigger] merged[i].text,
            ) by {
                if i > 0 {
                    assert(merged[i] == rest[i - 1]);
                }
            }
        },
    }
}

/// The round trip from the output text: with all three columns shown and a
/// tab as delimiter, the output of a comparison, taken apart into rows and
/// read back column by column, gives both inputs again, line for line. This
/// is claimed where no line holds a line feed, as no line that was read from
/// an input does, and where every classified line tells its column.
pub proof fn lemma_output_reads_back(cfg: CliView, left: Seq<Seq<char>>, right: Seq<Seq<char>>)
    requires
        shows_all_with_tabs(cfg),
        forall|i: int| 0 <= i < left.len() ==> feedless(#[trigger] left[i]),
        forall|i: int| 0 <= i < right.len() ==> feedless(#[trigger] right[i]),
        forall|i: int|
            0 <= i < merge(left, right).len() ==> tells_its_column(
                #[trigger] merge(left, right)[i],
            ),
    ensures
        read_rows(rows_in(output_of(cfg, merge(left, right)))) == merge(left, right),
        left_texts(read_rows(rows_in(output_of(cfg, merge(left, right))))) == left,
        right_texts(read_rows(rows_in(output_of(cfg, merge(left, right))))) == right,
{
    let lines = merge(left, right);
    lemma_merge_feedless(left, right);
    lemma_tabbed_rows(cfg, lines);
    lemma_rows_in_joined(rows_of(cfg, lines));
    lemma_round_trip(cfg, left, right);
}

} // verus!

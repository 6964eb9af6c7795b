//! Hidden columns: what hiding a column takes out of the output, and what
//! it leaves of the delimiters.

use crate::cli::CliView;
use crate::column::{output_of, repeated, row_of, rows_of, Category, Classified};
use vstd::prelude::*;

verus! {

/// The lines that are left when those of one category are taken away.
pub open spec fn without(lines: Seq<Classified>, category: Category) -> Seq<Classified>
    decreases lines.len(),
{
    if lines.len() == 0 {
        Seq::empty()
    } else {
        let before = without(lines.drop_last(), category);
        if lines.last().category == category {
            before
        } else {
            before.push(lines.last())
        }
    }
}

/// The configuration in which the column of one category is hidden and
/// nothing else is changed.
pub open spec fn hiding(cfg: CliView, category: Category) -> CliView {
    match category {
        Category::LeftOnly => CliView { show_col1: false, ..cfg },
        Category::RightOnly => CliView { show_col2: false, ..cfg },
        Category::Common => CliView { show_col3: false, ..cfg },
    }
}

/// Whether the column of the first category stands before that of the
/// second.
pub open spec fn stands_before(first: Category, second: Category) -> bool {
    match (first, second) {
        (Category::LeftOnly, Category::RightOnly) => true,
        (Category::LeftOnly, Category::Common) => true,
        (Category::RightOnly, Category::Common) => true,
        _ => false,
    }
}

/// Hiding a column takes exactly the lines of that column out of the
/// output: the rows are those of the other lines. Which of the other columns
/// are shown does not change, and a line of another column loses one leading
/// delimiter if the hidden column was shown and stood before its own, and
/// none otherwise.
pub proof fn lemma_hiding_a_column(cfg: CliView, hidden: Category, lines: Seq<Classified>)
    ensures
        !hiding(cfg, hidden).shows(hidden),
        rows_of(hiding(cfg, hidden), lines) == rows_of(
            hiding(cfg, hidden),
            without(lines, hidden),
        ),
        forall|other: Category|
            other != hidden ==> #[trigger] hiding(cfg, hidden).shows(other) == cfg.shows(other),
        forall|other: Category|
            other != hidden ==> #[trigger] hiding(cfg, hidden).shown_before(other) + (if cfg.shows(
                hidden,
            ) && stands_before(hidden, other) {
                1nat
            } else {
                0nat
            }) == cfg.shown_before(other),
    decreases lines.len(),
{
    if lines.len() > 0 {
        lemma_hiding_a_column(cfg, hidden, lines.drop_last());
        if lines.last().category != hidden {
            let kept = without(lines.drop_last(), hidden);
            assert(kept.push(lines.last()).drop_last() =~= kept);
        }
    }
}

/// With every column hidden nothing is printed: no row, and so no
/// delimiter either.
pub proof fn lemma_nothing_shown(cfg: CliView, lines: Seq<Classified>)
    requires
        !cfg.show_col1,
        !cfg.show_col2,
        !cfg.show_col3,
    ensures
        rows_of(cfg, lines) == Seq::<Seq<char>>::empty(),
        output_of(cfg, lines) == Seq::<char>::empty(),
    decreases lines.len(),
{
    if lines.len() > 0 {
        lemma_nothing_shown(cfg, lines.drop_last());
    }
}

/// A line of the first shown column is printed without any delimiter: its
/// row is the text and a line feed.
pub proof fn lemma_first_shown_column_is_plain(cfg: CliView, line: Classified)
    requires
        cfg.shows(line.category),
        forall|other: Category| #[trigger]
            stands_before(other, line.category) ==> !cfg.shows(other),
    ensures
        row_of(cfg, line) == Some(line.text + seq!['\n']),
{
    assert(line.category != Category::LeftOnly ==> stands_before(
        Category::LeftOnly,
        line.category,
    ));
    assert(line.category == Category::Common ==> stands_before(
        Category::RightOnly,
        line.category,
    ));
    assert(cfg.shown_before(line.category) == 0);
    assert(repeated(cfg.delimiter, 0) + line.text + seq!['\n'] =~= line.text + seq!['\n']);
}

} // verus!

//! Classified lines and the rows they are printed as.

use crate::cli::{Cli, CliView};
use vstd::prelude::*;
use vstd::string::*;

verus! {

/// A line together with the output column it belongs to: the first column
/// holds lines found only in the first input, the second column lines found
/// only in the second input, the third column lines found in both.
#[derive(Debug, Clone, Copy, PartialEq, Eq)]
pub enum Column<'a> {
    Col1(&'a str),
    Col2(&'a str),
    Col3(&'a str),
}

/// Which input or inputs a line was found in.
pub enum Category {
    LeftOnly,
    RightOnly,
    Common,
}

/// The mathematical content of a [`Column`]: a category and the line's text.
pub struct Classified {
    pub category: Category,
    pub text: Seq<char>,
}

impl Category {
    /// Whether a line of this category was taken from the first input.
    pub open spec fn from_left(self) -> bool {
        self != Category::RightOnly
    }

    /// Whether a line of this category was taken from the second input.
    pub open spec fn from_right(self) -> bool {
        self != Category::LeftOnly
    }
}

impl<'a> View for Column<'a> {
    type V = Classified;

    open spec fn view(&self) -> Classified {
        match self {
            Column::Col1(text) => Classified { category: Category::LeftOnly, text: text@ },
            Column::Col2(text) => Classified { category: Category::RightOnly, text: text@ },
            Column::Col3(text) => Classified { category: Category::Common, text: text@ },
        }
    }
}

impl<'a> DeepView for Column<'a> {
    type V = Classified;

    open spec fn deep_view(&self) -> Classified {
        self.view()
    }
}

impl<'a> Column<'a> {
    /// The text of the line.
    pub fn text(&self) -> (text: &'a str)
        ensures
            text@ == self@.text,
    {
        match self {
            Column::Col1(text) => text,
            Column::Col2(text) => text,
            Column::Col3(text) => text,
        }
    }

    /// Whether the line was taken from the first input, so that the first
    /// input moves on to its next line.
    pub fn from_left(&self) -> (taken: bool)
        ensures
            taken == self@.category.from_left(),
    {
        match self {
            Column::Col2(_) => false,
            _ => true,
        }
    }

    /// Whether the line was taken from the second input, so that the second
    /// input moves on to its next line.
    pub fn from_right(&self) -> (taken: bool)
        ensures
            taken == self@.category.from_right(),
    {
        match self {
            Column::Col1(_) => false,
            _ => true,
        }
    }
}

impl CliView {
    /// Whether the column of this category is shown.
    pub open spec fn shows(self, category: Category) -> bool {
        match category {
            Category::LeftOnly => self.show_col1,
            Category::RightOnly => self.show_col2,
            Category::Common => self.show_col3,
        }
    }

    /// How many shown columns stand before the column of this category.
    pub open spec fn shown_before(self, category: Category) -> nat {
        match category {
            Category::LeftOnly => 0,
            Category::RightOnly => if self.show_col1 {
                1
            } else {
                0
            },
            Category::Common => if self.show_col1 {
                if self.show_col2 {
                    2
                } else {
                    1
                }
            } else {
                if self.show_col2 {
                    1
                } else {
                    0
                }
            },
        }
    }
}

/// A text written `count` times in a row.
pub open spec fn repeated(text: Seq<char>, count: nat) -> Seq<char>
    decreases count,
{
    if count == 0 {
        Seq::empty()
    } else {
        text + repeated(text, (count - 1) as nat)
    }
}

/// The row printed for a classified line: the delimiter once for each shown
/// column before the line's own, then the line's text, then a line feed. A
/// line whose column is hidden prints no row.
pub open spec fn row_of(cfg: CliView, line: Classified) -> Option<Seq<char>> {
    if cfg.shows(line.category) {
        Some(
            repeated(cfg.delimiter, cfg.shown_before(line.category)) + line.text + seq!['\n'],
        )
    } else {
        None
    }
}

/// The rows printed for a sequence of classified lines, in their order: one
/// row for each line whose column is shown.
pub open spec fn rows_of(cfg: CliView, lines: Seq<Classified>) -> Seq<Seq<char>>
    decreases lines.len(),
{
    if lines.len() == 0 {
        Seq::empty()
    } else {
        let before = rows_of(cfg, lines.drop_last());
        match row_of(cfg, lines.last()) {
            Some(row) => before.push(row),
            None => before,
        }
    }
}

/// Rows written one after the other.
pub open spec fn joined(rows: Seq<Seq<char>>) -> Seq<char>
    decreases rows.len(),
{
    if rows.len() == 0 {
        Seq::empty()
    } else {
        joined(rows.drop_last()) + rows.last()
    }
}

/// The whole output for a sequence of classified lines: their rows, joined.
pub open spec fn output_of(cfg: CliView, lines: Seq<Classified>) -> Seq<char> {
    joined(rows_of(cfg, lines))
}

/// Formats one classified line as the row to print, line feed included, or
/// `None` when its column is hidden.
pub fn format_row(column: Column, cli: &Cli) -> (row: Option<String>)
    ensures
        row.deep_view() == row_of(cli@, column@),
{
    let mut row = String::new();
    match column {
        Column::Col1(text) => {
            if !cli.show_col1() {
                return None;
            }
            row.append(text);
        },
        Column::Col2(text) => {
            if !cli.show_col2() {
                return None;
            }
            if cli.show_col1() {
                row.append(cli.delimiter().as_str());
            }
            row.append(text);
        },
        Column::Col3(text) => {
            if !cli.show_col3() {
                return None;
            }
            if cli.show_col1() {
                row.append(cli.delimiter().as_str());
            }
            if cli.show_col2() {
                row.append(cli.delimiter().as_str());
            }
            row.append(text);
        },
    }
    row.append("\n");
    proof {
        reveal_strlit("\n");
        reveal_with_fuel(repeated, 3);
        assert(row@ =~= row_of(cli@, column@)->0);
    }
    Some(row)
}

/// Renders classified lines as output text: the rows of the lines whose
/// column is shown, in order.
pub fn render(columns: &Vec<Column>, cli: &Cli) -> (output: String)
    ensures
        output@ == output_of(cli@, columns.deep_view()),
{
    let mut output = String::new();
    let mut done: usize = 0;
    while done < columns.len()
        invariant
            done <= columns.len(),
            output@ == output_of(cli@, columns.deep_view().take(done as int)),
        decreases columns.len() - done,
    {
        let row = format_row(columns[done], cli);
        proof {
            let lines = columns.deep_view();
            let before = rows_of(cli@, lines.take(done as int));
            assert(lines.take(done + 1).drop_last() =~= lines.take(done as int));
            assert(lines.take(done + 1).last() == columns[done as int]@);
            if row is Some {
                assert(before.push(row->0@).drop_last() =~= before);
            }
        }
        match row {
            Some(text) => {
                output.append(text.as_str());
            },
            None => {},
        }
        done = done + 1;
    }
    proof {
        assert(columns.deep_view().take(done as int) =~= columns.deep_view());
    }
    output
}

} // verus!

//! The configuration of one run.

use crate::error::CommError;
use vstd::prelude::*;
use vstd::string::*;

verus! {

/// The settings of a run: the two input names, which of the three output
/// columns are shown, whether lines are compared without regard to case, and
/// the text that separates columns.
#[derive(Debug, Clone, PartialEq, Eq)]
pub struct Cli {
    file1: String,
    file2: String,
    show_col1: bool,
    show_col2: bool,
    show_col3: bool,
    insensitive: bool,
    delimiter: String,
}

/// The mathematical content of a [`Cli`].
pub struct CliView {
    pub file1: Seq<char>,
    pub file2: Seq<char>,
    pub show_col1: bool,
    pub show_col2: bool,
    pub show_col3: bool,
    pub insensitive: bool,
    pub delimiter: Seq<char>,
}

/// Whether an input name selects standard input: the name is a single hyphen.
pub open spec fn names_stdin(name: Seq<char>) -> bool {
    name == seq!['-']
}

impl CliView {
    /// Whether both inputs name standard input, which no run accepts.
    pub open spec fn both_stdin(self) -> bool {
        names_stdin(self.file1) && names_stdin(self.file2)
    }
}

impl View for Cli {
    type V = CliView;

    closed spec fn view(&self) -> CliView {
        CliView {
            file1: self.file1@,
            file2: self.file2@,
            show_col1: self.show_col1,
            show_col2: self.show_col2,
            show_col3: self.show_col3,
            insensitive: self.insensitive,
            delimiter: self.delimiter@,
        }
    }
}

/// Where the lines of one input come from.
#[derive(Debug, Clone, PartialEq, Eq)]
pub enum Input {
    /// The process's standard input.
    Stdin,
    /// The file of this name.
    File(String),
}

/// The mathematical content of an [`Input`].
pub enum InputView {
    Stdin,
    File(Seq<char>),
}

impl View for Input {
    type V = InputView;

    open spec fn view(&self) -> InputView {
        match self {
            Input::Stdin => InputView::Stdin,
            Input::File(name) => InputView::File(name@),
        }
    }
}

/// The input that a name selects: standard input for a single hyphen, the
/// file of that name for anything else.
pub open spec fn input_named(name: Seq<char>) -> InputView {
    if names_stdin(name) {
        InputView::Stdin
    } else {
        InputView::File(name)
    }
}

/// Decides where an input name leads.
pub fn input_for(filename: &str) -> (input: Input)
    ensures
        input@ == input_named(filename@),
{
    if filename.unicode_len() == 1 && filename.get_char(0) == '-' {
        assert(filename@ =~= seq!['-']);
        Input::Stdin
    } else {
        Input::File(String::from_str(filename))
    }
}

/// Assembles the configuration from the values given on the command line.
/// Every combination of values is accepted here; that the two inputs are
/// not both standard input is checked when the inputs are selected.
pub fn get_cli(
    file1: String,
    file2: String,
    show_col1: bool,
    show_col2: bool,
    show_col3: bool,
    insensitive: bool,
    delimiter: String,
) -> (cli: Result<Cli, CommError>)
    ensures
        cli matches Ok(c) && c@ == (CliView {
            file1: file1@,
            file2: file2@,
            show_col1,
            show_col2,
            show_col3,
            insensitive,
            delimiter: delimiter@,
        }),
{
    Ok(Cli { file1, file2, show_col1, show_col2, show_col3, insensitive, delimiter })
}

impl Cli {
    /// Selects the two inputs of the run, or refuses the configuration when
    /// both would be standard input. Nothing may be opened before this
    /// succeeds.
    pub fn inputs(&self) -> (selected: Result<(Input, Input), CommError>)
        ensures
            match selected {
                Ok(pair) => {
                    &&& !self@.both_stdin()
                    &&& pair.0@ == input_named(self@.file1)
                    &&& pair.1@ == input_named(self@.file2)
                },
                Err(e) => self@.both_stdin() && e == CommError::BothStdin,
            },
    {
        let first = input_for(self.file1.as_str());
        let second = input_for(self.file2.as_str());
        match (&first, &second) {
            (Input::Stdin, Input::Stdin) => Err(CommError::BothStdin),
            _ => Ok((first, second)),
        }
    }

    /// The name of the first input.
    pub fn file1(&self) -> (name: &String)
        ensures
            name@ == self@.file1,
    {
        &self.file1
    }

    /// The name of the second input.
    pub fn file2(&self) -> (name: &String)
        ensures
            name@ == self@.file2,
    {
        &self.file2
    }

    /// Whether lines found only in the first input are shown.
    pub fn show_col1(&self) -> (shown: bool)
        ensures
            shown == self@.show_col1,
    {
        self.show_col1
    }

    /// Whether lines found only in the second input are shown.
    pub fn show_col2(&self) -> (shown: bool)
        ensures
            shown == self@.show_col2,
    {
        self.show_col2
    }

    /// Whether lines found in both inputs are shown.
    pub fn show_col3(&self) -> (shown: bool)
        ensures
            shown == self@.show_col3,
    {
        self.show_col3
    }

    /// Whether lines are compared without regard to letter case.
    pub fn insensitive(&self) -> (folded: bool)
        ensures
            folded == self@.insensitive,
    {
        self.insensitive
    }

    /// The text printed once for each shown column that precedes a line's own.
    pub fn delimiter(&self) -> (text: &String)
        ensures
            text@ == self@.delimiter,
    {
        &self.delimiter
    }
}

} // verus!

//! Three-way comparison of two sorted line sequences: which lines are only
//! in the first, which only in the second, and which in both, printed in
//! three columns.

use vstd::prelude::*;

pub mod cli;
pub mod column;
pub mod error;
pub mod laws;
pub mod merge;
pub mod order;
pub mod source;

pub use cli::{get_cli, input_for, Cli, CliView, Input, InputView};
pub use column::{format_row, render, Category, Classified, Column};
pub use error::CommError;
pub use merge::{classify, compare};
pub use source::{fold_line, line_source};

verus! {

/// The output of a run on the records of two inputs: the lines that the
/// records yield are merged, and the classified lines printed.
pub open spec fn run_output(
    cfg: CliView,
    records1: Seq<Option<Seq<char>>>,
    records2: Seq<Option<Seq<char>>>,
) -> Seq<char> {
    column::output_of(
        cfg,
        merge::merge(
            source::lines_of(records1, cfg.insensitive),
            source::lines_of(records2, cfg.insensitive),
        ),
    )
}

/// Compares the records read from the two inputs and returns the text to
/// print. A configuration that names standard input twice is refused,
/// whatever the records are.
pub fn run(cli: Cli, records1: Vec<Option<String>>, records2: Vec<Option<String>>) -> (result:
    Result<String, CommError>)
    ensures
        match result {
            Ok(output) => {
                &&& !cli@.both_stdin()
                &&& output@ == run_output(cli@, records1.deep_view(), records2.deep_view())
            },
            Err(e) => cli@.both_stdin() && e == CommError::BothStdin,
        },
{
    match cli.inputs() {
        Err(e) => Err(e),
        Ok(_) => {
            let lines1 = line_source(records1, cli.insensitive());
            let lines2 = line_source(records2, cli.insensitive());
            let columns = compare(&lines1, &lines2);
            Ok(render(&columns, &cli))
        },
    }
}

} // verus!

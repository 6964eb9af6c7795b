//! Fatal conditions that end a run before any line is compared.

use vstd::prelude::*;
use vstd::string::*;

verus! {

/// Why a run was abandoned.
#[derive(Debug, Clone, PartialEq, Eq)]
pub enum CommError {
    /// Both inputs name standard input, which can be read only once.
    BothStdin,
    /// The named input file could not be opened; `cause` is the system's
    /// description of the failure.
    Open { filename: String, cause: String },
}

impl CommError {
    /// The diagnostic text of this error: a fixed sentence for the
    /// configuration error, and the file name, a colon, a space and the
    /// cause for a failed open.
    pub open spec fn message_text(self) -> Seq<char> {
        match self {
            CommError::BothStdin => "Both input files cannot be STDIN (\"-\")"@,
            CommError::Open { filename, cause } => filename@ + ": "@ + cause@,
        }
    }

    /// Renders the diagnostic that is shown to the user.
    pub fn message(&self) -> (text: String)
        ensures
            text@ == self.message_text(),
    {
        match self {
            CommError::BothStdin => String::from_str("Both input files cannot be STDIN (\"-\")"),
            CommError::Open { filename, cause } => {
                let mut text = filename.clone();
                text.append(": ");
                text.append(cause.as_str());
                text
            },
        }
    }
}

} // verus!

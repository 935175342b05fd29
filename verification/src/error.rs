//! Errors that end a sandbox launch.

use vstd::prelude::*;

verus! {

/// Why a sandbox cannot be launched.
#[derive(Debug, Clone, PartialEq, Eq)]
pub enum CodexErr {
    /// There is no way on; the text says why.
    Fatal(String),
}

impl View for CodexErr {
    type V = Seq<char>;

    open spec fn view(&self) -> Seq<char> {
        match self {
            CodexErr::Fatal(reason) => reason@,
        }
    }
}

impl CodexErr {
    /// The error as it is shown to a user.
    pub fn message(&self) -> (text: String)
        ensures
            text@ == "Fatal error: "@ + self@,
    {
        match self {
            CodexErr::Fatal(reason) => {
                let mut text = "Fatal error: ".to_owned();
                text.append(reason.as_str());
                text
            },
        }
    }
}

} // verus!

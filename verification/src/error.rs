//! The error that every fallible function of the library returns.

use vstd::prelude::*;

verus! {

/// What went wrong, in words for the user.
#[derive(Debug, Clone)]
pub struct Error {
    text: String,
}

impl View for Error {
    type V = Seq<char>;

    closed spec fn view(&self) -> Seq<char> {
        self.text@
    }
}

impl Error {
    /// The words.
    pub fn message(&self) -> (s: String)
        ensures
            s@ == self@,
    {
        self.text.clone()
    }
}

/// The error with these words.
pub fn err(text: String) -> (e: Error)
    ensures
        e@ == text@,
{
    Error { text }
}

/// The error with these words.
pub fn err_str(text: &str) -> (e: Error)
    ensures
        e@ == text@,
{
    err(text.to_owned())
}

} // verus!

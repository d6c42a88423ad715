//! The error taxonomy: a read failure or a structural format violation.

use vstd::prelude::*;

verus! {

/// Errors surfaced by parsing: `IoError` wraps the description of a failed
/// read of the source text (produced by callers that do the reading);
/// `FormatError` carries a human-readable description of a grammar or
/// schema violation.
#[derive(Debug)]
pub enum Error {
    IoError(String),
    FormatError(String),
}

impl Error {
    /// The descriptive message carried by this error.
    pub fn message(&self) -> (r: &String)
        ensures
            r@ == self.message_view(),
    {
        match self {
            Error::IoError(m) => m,
            Error::FormatError(m) => m,
        }
    }

    /// The message of either variant, as a sequence of characters.
    pub open spec fn message_view(&self) -> Seq<char> {
        match self {
            Error::IoError(m) => m@,
            Error::FormatError(m) => m@,
        }
    }
}

} // verus!

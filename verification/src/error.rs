//! The error taxonomy shared by the whole crate.

use vstd::prelude::*;

verus! {

/// One error value for every failure the crate reports.
///
/// `GhNotFound` and `GhError` describe the external transport tool,
/// `ParseError` a malformed reply from it, `InvalidInput` a value the user
/// supplied (such as a malformed color), and `Io` a file-system failure.
/// Transport and file-system failures are only ever constructed by the
/// unverified outer layer; the verified library itself produces
/// `InvalidInput`.
#[derive(Debug)]
pub enum BiaoError {
    GhNotFound { message: String },
    GhError { message: String },
    ParseError { message: String },
    InvalidInput(String),
    Io(String),
}

impl BiaoError {
    /// The human-readable text carried by the error, without its category.
    pub fn message(&self) -> (r: &String)
        ensures
            r@ == self.message_view(),
    {
        match self {
            BiaoError::GhNotFound { message } => message,
            BiaoError::GhError { message } => message,
            BiaoError::ParseError { message } => message,
            BiaoError::InvalidInput(message) => message,
            BiaoError::Io(message) => message,
        }
    }

    /// What `message` returns, as a sequence of characters.
    pub open spec fn message_view(&self) -> Seq<char> {
        match self {
            BiaoError::GhNotFound { message } => message@,
            BiaoError::GhError { message } => message@,
            BiaoError::ParseError { message } => message@,
            BiaoError::InvalidInput(message) => message@,
            BiaoError::Io(message) => message@,
        }
    }
}

} // verus!

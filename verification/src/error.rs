//! Errors of the library.

use vstd::prelude::*;

verus! {

/// Error kinds of the search engine core, each with its message.
#[derive(Debug, Clone, PartialEq, Eq)]
pub enum Error {
    /// A schema or naming rule was broken.
    Schema(String),
    /// A backend refused an operation.
    Backend(String),
    /// Persistent storage failed.
    Storage(String),
    /// The configuration is invalid.
    Config(String),
}

impl Error {
    /// The message carried by the error.
    pub fn message(&self) -> (r: String)
        ensures
            r@ == match self {
                Error::Schema(m) => m@,
                Error::Backend(m) => m@,
                Error::Storage(m) => m@,
                Error::Config(m) => m@,
            },
    {
        match self {
            Error::Schema(m) => m.clone(),
            Error::Backend(m) => m.clone(),
            Error::Storage(m) => m.clone(),
            Error::Config(m) => m.clone(),
        }
    }
}

} // verus!

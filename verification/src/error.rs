//! The errors that the parts around the document core report.

use vstd::prelude::*;

verus! {

#[derive(Debug, PartialEq, Eq)]
pub enum Error {
    Network(String),
    UnexpectedInput(String),
    InvalidUI(String),
    Other(String),
}

impl Error {
    /// The message that the error carries.
    pub fn message(&self) -> (s: String)
        ensures
            s@ == self.message_view(),
    {
        match self {
            Error::Network(s) => s.clone(),
            Error::UnexpectedInput(s) => s.clone(),
            Error::InvalidUI(s) => s.clone(),
            Error::Other(s) => s.clone(),
        }
    }

    /// The message that the error carries.
    pub open spec fn message_view(&self) -> Seq<char> {
        match *self {
            Error::Network(s) => s@,
            Error::UnexpectedInput(s) => s@,
            Error::InvalidUI(s) => s@,
            Error::Other(s) => s@,
        }
    }
}

} // verus!

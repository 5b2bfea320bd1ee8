//! Failures by their origin.

use vstd::prelude::*;

verus! {

/// A failure of the core, with the message of whoever reported it.
#[derive(Debug, PartialEq, Eq)]
pub enum CoreError {
    /// The statement is of a kind that is not supported.
    UnsupportedSqlError(String),
    /// The parser refused the text.
    ParserError(String),
    /// The query engine failed.
    DataFusionError(String),
}

impl CoreError {
    /// The message of the failure.
    pub open spec fn message_view(self) -> Seq<char> {
        match self {
            CoreError::UnsupportedSqlError(message) => message@,
            CoreError::ParserError(message) => message@,
            CoreError::DataFusionError(message) => message@,
        }
    }

    /// The message of the failure.
    pub fn message(&self) -> (message: &String)
        ensures
            message@ == self.message_view(),
    {
        match self {
            CoreError::UnsupportedSqlError(message) => message,
            CoreError::ParserError(message) => message,
            CoreError::DataFusionError(message) => message,
        }
    }
}

} // verus!

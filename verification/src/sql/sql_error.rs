//! Failures of the statement classifier.

use crate::response::http_error::{bad_request, Exception};
use vstd::prelude::*;
use vstd::string::*;

verus! {

/// A statement that cannot be worked on, with the reason.
#[derive(Debug, PartialEq, Eq)]
pub enum SQLError {
    SQLSyntax { sql: String, message: String },
}

impl Clone for SQLError {
    fn clone(&self) -> (copy: Self)
        ensures
            copy.sql_view() == self.sql_view(),
            copy.message_view() == self.message_view(),
    {
        match self {
            SQLError::SQLSyntax { sql, message } => SQLError::SQLSyntax {
                sql: sql.clone(),
                message: message.clone(),
            },
        }
    }
}

/// The sentence that reports that `sql` cannot be worked on because of
/// `message`.
pub open spec fn syntax_error_text(message: Seq<char>, sql: Seq<char>) -> Seq<char> {
    "SQL syntax error found: "@ + message + ", SQL: "@ + sql
}

impl SQLError {
    /// The SQL text that the failure is about.
    pub open spec fn sql_view(self) -> Seq<char> {
        match self {
            SQLError::SQLSyntax { sql, message } => sql@,
        }
    }

    /// The reason of the failure.
    pub open spec fn message_view(self) -> Seq<char> {
        match self {
            SQLError::SQLSyntax { sql, message } => message@,
        }
    }

    /// The failure of a text that cannot be worked on, with the reason.
    pub fn sql_syntax_error(message: &str, sql: &str) -> (e: Self)
        ensures
            e.message_view() == message@,
            e.sql_view() == sql@,
    {
        SQLError::SQLSyntax { message: String::from_str(message), sql: String::from_str(sql) }
    }

    /// The sentence that describes this failure.
    pub fn to_message(&self) -> (text: String)
        ensures
            text@ == syntax_error_text(self.message_view(), self.sql_view()),
    {
        match self {
            SQLError::SQLSyntax { sql, message } => {
                let mut text = String::from_str("SQL syntax error found: ");
                text.append(message.as_str());
                text.append(", SQL: ");
                text.append(sql.as_str());
                text
            },
        }
    }
}

/// The conversion is stated by the text of the failure that comes out, on
/// `from` itself, and not as a value.
impl vstd::std_specs::convert::FromSpecImpl<SQLError> for Exception {
    open spec fn obeys_from_spec() -> bool {
        false
    }

    open spec fn from_spec(error: SQLError) -> Self {
        arbitrary()
    }
}

impl From<SQLError> for Exception {
    /// The bad request that reports the failure to the caller.
    fn from(error: SQLError) -> (e: Self)
        ensures
            e@ == bad_request(syntax_error_text(error.message_view(), error.sql_view())),
    {
        Exception::BadRequest { message: error.to_message() }
    }
}

} // verus!

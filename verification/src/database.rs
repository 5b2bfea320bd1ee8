//! Statements by their text: parsing, intent and table names, with
//! failures that say whether the text or the work on it was at fault.

use crate::response::http_error::BAD_REQUEST;
use crate::response::schema::HttpResponseResult;
use crate::sql::ast::{all_queries, statements_tables, SqlStatement};
use crate::sql::parse::{parse_statements, parsed_sql, table_names_of};
use crate::text::texts;
use vstd::prelude::*;
use vstd::string::*;

verus! {

/// A failure of the work on a statement.
#[derive(Debug, PartialEq, Eq)]
pub enum DBError {
    /// The work on a statement failed.
    SQLError { message: String },
    /// The text is no statement that can be worked on.
    SQLSyntaxError { sql: String, error: String },
}

/// Mathematical value of a [`DBError`].
pub enum DBErrorView {
    SQLError { message: Seq<char> },
    SQLSyntaxError { sql: Seq<char>, error: Seq<char> },
}

impl View for DBError {
    type V = DBErrorView;

    open spec fn view(&self) -> DBErrorView {
        match *self {
            DBError::SQLError { message } => DBErrorView::SQLError { message: message@ },
            DBError::SQLSyntaxError { sql, error } => DBErrorView::SQLSyntaxError {
                sql: sql@,
                error: error@,
            },
        }
    }
}

impl Clone for DBError {
    fn clone(&self) -> (copy: Self)
        ensures
            copy@ == self@,
    {
        match self {
            DBError::SQLError { message } => DBError::SQLError { message: message.clone() },
            DBError::SQLSyntaxError { sql, error } => DBError::SQLSyntaxError {
                sql: sql.clone(),
                error: error.clone(),
            },
        }
    }
}

impl DBErrorView {
    /// The sentence that describes the failure.
    pub open spec fn text(self) -> Seq<char> {
        match self {
            DBErrorView::SQLError { message } => "Some SQL error occurred: "@ + message,
            DBErrorView::SQLSyntaxError { sql, error } => "SQL syntax error found: "@ + sql,
        }
    }

    /// The message that the response carries.
    pub open spec fn response_message(self) -> Seq<char> {
        match self {
            DBErrorView::SQLError { message } => message,
            DBErrorView::SQLSyntaxError { sql, error } => sql,
        }
    }
}

impl DBError {
    /// The HTTP status that goes with the failure: a bad request, always.
    pub fn status_code(&self) -> (code: u16)
        ensures
            code == BAD_REQUEST,
    {
        BAD_REQUEST
    }

    /// The sentence that describes this failure.
    pub fn to_message(&self) -> (text: String)
        ensures
            text@ == self@.text(),
    {
        match self {
            DBError::SQLError { message } => {
                let mut text = String::from_str("Some SQL error occurred: ");
                text.append(message.as_str());
                text
            },
            DBError::SQLSyntaxError { sql, error: _ } => {
                let mut text = String::from_str("SQL syntax error found: ");
                text.append(sql.as_str());
                text
            },
        }
    }

    /// The body of the response that reports this failure.
    pub fn error_response(&self) -> (body: HttpResponseResult<String>)
        ensures
            body.resp_code == 1,
            body.data is None,
            body.resp_msg@ == self@.response_message(),
    {
        HttpResponseResult {
            resp_msg: match self {
                DBError::SQLError { message } => message.clone(),
                DBError::SQLSyntaxError { sql, error: _ } => sql.clone(),
            },
            data: None,
            resp_code: 1,
        }
    }
}

/// Intent of a statement: data definition or data manipulation.
#[derive(Debug, Clone, Copy, PartialEq, Eq, Structural)]
pub enum SqlType {
    DDL,
    DML,
}

/// What [`parse_sql`] makes of what the parser made of a text.
pub open spec fn parse_result(sql: Seq<char>) -> Result<Seq<SqlStatement>, DBErrorView> {
    match parsed_sql(sql) {
        Ok(statements) => Ok(statements),
        Err(message) => Err(DBErrorView::SQLSyntaxError { sql, error: message }),
    }
}

/// Parses a text into statements. A text that is not SQL is a syntax
/// error that carries the text and the parser's message.
pub fn parse_sql(sql: &str) -> (r: Result<Vec<SqlStatement>, DBError>)
    ensures
        match parse_result(sql@) {
            Ok(statements) => r matches Ok(list) && list@ == statements,
            Err(failure) => r matches Err(e) && e@ == failure,
        },
{
    match parse_statements(sql) {
        Ok(list) => Ok(list),
        Err(error) => Err(DBError::SQLSyntaxError { sql: String::from_str(sql), error }),
    }
}

/// What [`table_names_in`] returns for a statement list and its text.
pub open spec fn table_names_in_result(statements: Seq<SqlStatement>, sql: Seq<char>) -> Result<
    Seq<Seq<char>>,
    DBErrorView,
> {
    if all_queries(statements) {
        Ok(statements_tables(statements))
    } else {
        Err(DBErrorView::SQLError { message: sql })
    }
}

/// The tables that a list of statements names, in order. Every statement
/// has to be a query; otherwise the text is reported as at fault.
pub fn table_names_in(statements: &Vec<SqlStatement>, sql: &str) -> (r: Result<
    Vec<String>,
    DBError,
>)
    ensures
        match table_names_in_result(statements@, sql@) {
            Ok(names) => r matches Ok(list) && texts(list@) == names,
            Err(failure) => r matches Err(e) && e@ == failure,
        },
{
    match table_names_of(statements, sql) {
        Ok(list) => Ok(list),
        Err(_) => Err(DBError::SQLError { message: String::from_str(sql) }),
    }
}

/// The tables that a text names, in order.
pub fn sql_to_table_names(sql: &String) -> (r: Result<Vec<String>, DBError>)
    ensures
        match parse_result(sql@) {
            Ok(statements) => match table_names_in_result(statements, sql@) {
                Ok(names) => r matches Ok(list) && texts(list@) == names,
                Err(failure) => r matches Err(e) && e@ == failure,
            },
            Err(failure) => r matches Err(e) && e@ == failure,
        },
{
    match parse_sql(sql.as_str()) {
        Ok(statements) => table_names_in(&statements, sql.as_str()),
        Err(e) => Err(e),
    }
}

/// What [`sql_type_in`] returns for a statement list and its text.
pub open spec fn sql_type_in_result(statements: Seq<SqlStatement>, sql: Seq<char>) -> Result<
    SqlType,
    DBErrorView,
> {
    if statements.len() == 0 {
        Err(DBErrorView::SQLSyntaxError { sql, error: "异常 SQL"@ })
    } else {
        match statements[0] {
            SqlStatement::Query(_) => Ok(SqlType::DML),
            SqlStatement::CreateTable(_) => Ok(SqlType::DDL),
            SqlStatement::Other => Err(
                DBErrorView::SQLSyntaxError { sql, error: "未知 SQL 类型"@ },
            ),
        }
    }
}

/// The intent of a statement list, read off its first statement.
pub fn sql_type_in(statements: &Vec<SqlStatement>, sql: &str) -> (r: Result<SqlType, DBError>)
    ensures
        match sql_type_in_result(statements@, sql@) {
            Ok(kind) => r == Ok::<SqlType, DBError>(kind),
            Err(failure) => r matches Err(e) && e@ == failure,
        },
{
    if statements.len() == 0 {
        return Err(
            DBError::SQLSyntaxError {
                sql: String::from_str(sql),
                error: String::from_str("异常 SQL"),
            },
        );
    }
    match &statements[0] {
        SqlStatement::Query(_) => Ok(SqlType::DML),
        SqlStatement::CreateTable(_) => Ok(SqlType::DDL),
        SqlStatement::Other => Err(
            DBError::SQLSyntaxError {
                sql: String::from_str(sql),
                error: String::from_str("未知 SQL 类型"),
            },
        ),
    }
}

/// The statements of a text, with their intent.
pub fn determine_sql_type(sql: &String) -> (r: Result<(Vec<SqlStatement>, SqlType), DBError>)
    ensures
        match parse_result(sql@) {
            Ok(statements) => match sql_type_in_result(statements, sql@) {
                Ok(kind) => r matches Ok(pair) && pair.0@ == statements && pair.1 == kind,
                Err(failure) => r matches Err(e) && e@ == failure,
            },
            Err(failure) => r matches Err(e) && e@ == failure,
        },
{
    let statements = match parse_sql(sql.as_str()) {
        Ok(statements) => statements,
        Err(e) => {
            return Err(e);
        },
    };
    match sql_type_in(&statements, sql.as_str()) {
        Ok(kind) => Ok((statements, kind)),
        Err(e) => Err(e),
    }
}

} // verus!

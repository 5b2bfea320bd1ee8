//! Bodies of the responses that the service sends.

use crate::server::schema::TableFieldSchema;
use crate::sql::schema::SQLType;
use vstd::prelude::*;
use vstd::string::*;

verus! {

/// The envelope of every response: a message, the data if there is any, and
/// a code that is 0 on success.
#[derive(Debug, PartialEq, Eq)]
pub struct HttpResponseResult<T> {
    pub resp_msg: String,
    pub data: Option<T>,
    pub resp_code: i32,
}

impl<T> HttpResponseResult<T> {
    /// The envelope of a successful response.
    pub fn success(data: Option<T>, resp_msg: &str) -> (result: Self)
        ensures
            result.resp_code == 0,
            result.data == data,
            result.resp_msg@ == resp_msg@,
    {
        Self::response_json(
            HttpResponseResult { resp_msg: String::from_str(resp_msg), data, resp_code: 0 },
        )
    }

    /// The envelope of a failed response; its code is 1 unless another is
    /// given.
    pub fn fail(resp_msg: String, resp_code: Option<i32>) -> (result: Self)
        ensures
            result.resp_code == (match resp_code {
                Some(code) => code,
                None => 1,
            }),
            result.data is None,
            result.resp_msg@ == resp_msg@,
    {
        let code = match resp_code {
            Some(code) => code,
            None => 1,
        };
        Self::response_json(HttpResponseResult { resp_msg, data: None, resp_code: code })
    }

    /// The envelope as it is handed to the transport, unchanged.
    pub fn response_json(result: HttpResponseResult<T>) -> (body: HttpResponseResult<T>)
        ensures
            body == result,
    {
        result
    }
}

/// The body of a response that reports a failure.
#[derive(Debug, PartialEq, Eq)]
pub struct HttpResponseError {
    pub resp_msg: String,
    pub resp_code: i32,
}

/// Rows of a result under one header.
#[derive(Debug, PartialEq, Eq)]
pub struct FetchResult<V> {
    pub header: Option<Vec<String>>,
    pub rows: Option<Vec<Vec<V>>>,
    pub sql_type: Option<SQLType>,
    pub query_time: String,
}

/// A catalog entry as the catalog listing shows it.
#[derive(Debug, PartialEq, Eq)]
pub struct TableCatalog {
    pub id: i32,
    pub table_ref: String,
    pub table_path: String,
    pub table_schema: Vec<TableFieldSchema>,
}

/// One line of the query history.
#[derive(Debug, PartialEq, Eq)]
pub struct FetchHistory {
    pub sql: String,
    pub status: String,
    pub created_at: String,
}

} // verus!

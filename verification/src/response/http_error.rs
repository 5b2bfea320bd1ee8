//! The error envelope that every failure is turned into before it leaves the
//! library.

use crate::response::schema::HttpResponseError;
use vstd::prelude::*;
use vstd::string::*;

verus! {

/// HTTP status that goes with [`Exception::BadRequest`].
pub const BAD_REQUEST: u16 = 400;

/// HTTP status that goes with [`Exception::FileNotFound`].
pub const NOT_FOUND: u16 = 404;

/// HTTP status that goes with [`Exception::UnprocessableEntity`].
pub const UNPROCESSABLE_ENTITY: u16 = 422;

/// HTTP status that goes with [`Exception::InternalServer`].
pub const INTERNAL_SERVER_ERROR: u16 = 500;

/// What a failure looks like from outside: transport status, response code
/// and message.
#[derive(Debug, PartialEq, Eq)]
pub struct ExceptionAttributes {
    pub status_code: u16,
    pub resp_code: i32,
    pub resp_msg: String,
}

impl ExceptionAttributes {
    /// Attributes of a failure with the given message and status; the
    /// response code of a failure is always 1.
    pub fn new(message: &str, status_code: u16) -> (attributes: Self)
        ensures
            attributes.resp_code == 1,
            attributes.status_code == status_code,
            attributes.resp_msg@ == message@,
    {
        ExceptionAttributes { resp_code: 1, status_code, resp_msg: String::from_str(message) }
    }
}

/// A failure as the caller sees it.
#[derive(Debug, PartialEq, Eq)]
pub enum Exception {
    InternalServer { message: String },
    BadRequest { message: String },
    FileNotFound { file_name: String },
    UnprocessableEntity { message: String },
}

/// Mathematical value of an [`Exception`].
pub enum ExceptionView {
    InternalServer { message: Seq<char> },
    BadRequest { message: Seq<char> },
    FileNotFound { file_name: Seq<char> },
    UnprocessableEntity { message: Seq<char> },
}

impl View for Exception {
    type V = ExceptionView;

    open spec fn view(&self) -> ExceptionView {
        match *self {
            Exception::InternalServer { message } => ExceptionView::InternalServer {
                message: message@,
            },
            Exception::BadRequest { message } => ExceptionView::BadRequest { message: message@ },
            Exception::FileNotFound { file_name } => ExceptionView::FileNotFound {
                file_name: file_name@,
            },
            Exception::UnprocessableEntity { message } => ExceptionView::UnprocessableEntity {
                message: message@,
            },
        }
    }
}

impl Clone for Exception {
    fn clone(&self) -> (copy: Self)
        ensures
            copy@ == self@,
    {
        match self {
            Exception::InternalServer { message } => Exception::InternalServer {
                message: message.clone(),
            },
            Exception::BadRequest { message } => Exception::BadRequest { message: message.clone() },
            Exception::FileNotFound { file_name } => Exception::FileNotFound {
                file_name: file_name.clone(),
            },
            Exception::UnprocessableEntity { message } => Exception::UnprocessableEntity {
                message: message.clone(),
            },
        }
    }
}

/// The bad-request failure with the given message.
pub open spec fn bad_request(message: Seq<char>) -> ExceptionView {
    ExceptionView::BadRequest { message }
}

/// The unprocessable-entity failure with the given message.
pub open spec fn unprocessable_entity(message: Seq<char>) -> ExceptionView {
    ExceptionView::UnprocessableEntity { message }
}

/// The file-not-found failure for the given file.
pub open spec fn file_not_found(file_name: Seq<char>) -> ExceptionView {
    ExceptionView::FileNotFound { file_name }
}

/// The internal-server failure with the given message.
pub open spec fn internal_server(message: Seq<char>) -> ExceptionView {
    ExceptionView::InternalServer { message }
}

impl ExceptionView {
    /// The sentence that describes the failure.
    pub open spec fn text(self) -> Seq<char> {
        match self {
            ExceptionView::InternalServer { message } => "Internal server error "@ + message,
            ExceptionView::BadRequest { message } => "Bad Request: "@ + message,
            ExceptionView::FileNotFound { file_name } => "File not found: "@ + file_name,
            ExceptionView::UnprocessableEntity { message } =>
                "The data is not as expected. Expected: "@ + message,
        }
    }

    /// The HTTP status that goes with the failure.
    pub open spec fn status_code(self) -> u16 {
        match self {
            ExceptionView::InternalServer { .. } => INTERNAL_SERVER_ERROR,
            ExceptionView::BadRequest { .. } => BAD_REQUEST,
            ExceptionView::FileNotFound { .. } => NOT_FOUND,
            ExceptionView::UnprocessableEntity { .. } => UNPROCESSABLE_ENTITY,
        }
    }

    /// The message that the response carries.
    pub open spec fn response_message(self) -> Seq<char> {
        match self {
            ExceptionView::InternalServer { message } => message,
            ExceptionView::BadRequest { message } => message,
            ExceptionView::FileNotFound { file_name } => "File not found: "@ + file_name,
            ExceptionView::UnprocessableEntity { message } => message,
        }
    }
}

impl Exception {
    /// Transport status, response code and message of this failure.
    pub fn attributes(&self) -> (attributes: ExceptionAttributes)
        ensures
            attributes.resp_code == 1,
            attributes.status_code == self@.status_code(),
            attributes.resp_msg@ == self@.response_message(),
    {
        match self {
            Exception::BadRequest { message } => ExceptionAttributes::new(
                message.as_str(),
                BAD_REQUEST,
            ),
            Exception::FileNotFound { file_name } => {
                let mut text = String::from_str("File not found: ");
                text.append(file_name.as_str());
                ExceptionAttributes::new(text.as_str(), NOT_FOUND)
            },
            Exception::InternalServer { message } => ExceptionAttributes::new(
                message.as_str(),
                INTERNAL_SERVER_ERROR,
            ),
            Exception::UnprocessableEntity { message } => ExceptionAttributes::new(
                message.as_str(),
                UNPROCESSABLE_ENTITY,
            ),
        }
    }

    /// The body of the response that reports this failure.
    pub fn error_response(&self) -> (body: HttpResponseError)
        ensures
            body.resp_code == 1,
            body.resp_msg@ == self@.response_message(),
    {
        let attributes = self.attributes();
        HttpResponseError { resp_msg: attributes.resp_msg, resp_code: attributes.resp_code }
    }

    /// The sentence that describes this failure.
    pub fn to_message(&self) -> (text: String)
        ensures
            text@ == self@.text(),
    {
        match self {
            Exception::InternalServer { message } => {
                let mut text = String::from_str("Internal server error ");
                text.append(message.as_str());
                text
            },
            Exception::BadRequest { message } => {
                let mut text = String::from_str("Bad Request: ");
                text.append(message.as_str());
                text
            },
            Exception::FileNotFound { file_name } => {
                let mut text = String::from_str("File not found: ");
                text.append(file_name.as_str());
                text
            },
            Exception::UnprocessableEntity { message } => {
                let mut text = String::from_str("The data is not as expected. Expected: ");
                text.append(message.as_str());
                text
            },
        }
    }

    /// The failure of the service itself.
    pub fn internal_server_error(message: &str) -> (e: Self)
        ensures
            e@ == internal_server(message@),
    {
        Exception::InternalServer { message: String::from_str(message) }
    }

    /// The failure of a request that cannot be worked on as it is.
    pub fn bad_request_error(message: &str) -> (e: Self)
        ensures
            e@ == bad_request(message@),
    {
        Exception::BadRequest { message: String::from_str(message) }
    }

    /// The failure of a request for a file that is not there.
    pub fn file_not_found_error(file_name: &str) -> (e: Self)
        ensures
            e@ == file_not_found(file_name@),
    {
        Exception::FileNotFound { file_name: String::from_str(file_name) }
    }

    /// The failure of a request whose content is not what is expected.
    pub fn unprocessable_entity_error(message: &str) -> (e: Self)
        ensures
            e@ == unprocessable_entity(message@),
    {
        Exception::UnprocessableEntity { message: String::from_str(message) }
    }
}

} // verus!

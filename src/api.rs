//! Errors of the HTTP interface and what each one answers.
use vstd::prelude::*;

pub mod auth;
pub mod discussion;

verus! {

/// Why an HTTP request was refused.
pub enum HandleError {
    WrongCredentials,
    MissingCredentials,
    BadRequest(String),
    ServerError(String),
    NotFound(String),
}

/// HTTP status codes used by the interface.
pub const STATUS_BAD_REQUEST: u16 = 400;
pub const STATUS_UNAUTHORIZED: u16 = 401;
pub const STATUS_NOT_FOUND: u16 = 404;
pub const STATUS_SERVER_ERROR: u16 = 500;

impl HandleError {
    /// The status code of the answer.
    pub open spec fn status_spec(&self) -> u16 {
        match self {
            HandleError::WrongCredentials => STATUS_UNAUTHORIZED,
            HandleError::MissingCredentials => STATUS_BAD_REQUEST,
            HandleError::BadRequest(_) => STATUS_BAD_REQUEST,
            HandleError::ServerError(_) => STATUS_SERVER_ERROR,
            HandleError::NotFound(_) => STATUS_NOT_FOUND,
        }
    }

    /// The text of the answer's `message` field.
    pub open spec fn message_spec(&self) -> Seq<char> {
        match self {
            HandleError::WrongCredentials => "Wrong credentials"@,
            HandleError::MissingCredentials => "Missing credentials"@,
            HandleError::BadRequest(s) => s@,
            HandleError::ServerError(s) => s@,
            HandleError::NotFound(s) => s@,
        }
    }

    /// The status code and message text that answer this error; the body
    /// also carries `success: false`.
    pub fn status_message(&self) -> (r: (u16, String))
        ensures
            r.0 == self.status_spec(),
            r.1@ == self.message_spec(),
    {
        match self {
            HandleError::WrongCredentials => (STATUS_UNAUTHORIZED, "Wrong credentials".to_string()),
            HandleError::MissingCredentials => (
                STATUS_BAD_REQUEST,
                "Missing credentials".to_string(),
            ),
            HandleError::BadRequest(s) => (STATUS_BAD_REQUEST, s.clone()),
            HandleError::ServerError(s) => (STATUS_SERVER_ERROR, s.clone()),
            HandleError::NotFound(s) => (STATUS_NOT_FOUND, s.clone()),
        }
    }
}

} // verus!

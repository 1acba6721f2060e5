//! The service's errors and the HTTP answers they become.
//!
//! A request that the service cannot serve because of what the client sent
//! is answered `400 Bad Request`; a failure of the service itself is
//! answered `500 Internal Server Error`. Either way the body is the error's
//! message as plain text.
use vstd::prelude::*;

verus! {

/// An error that ends a request. Each variant but `BadRequest` holds the
/// `Debug` rendering of the error that caused it.
#[derive(Clone, Debug, PartialEq, Eq)]
pub enum HttpResError {
    /// Reading or writing JSON failed.
    SerdeJSON(String),
    /// The request is malformed; holds the reason.
    BadRequest(String),
    /// The payload broke a validation rule.
    HttpValidation(String),
    /// The database refused or failed the statement.
    Sqlite(String),
    /// The database connection could not be reached.
    TokioRusqlite(String),
}

/// What `format!("{:?}", s)` writes for a string: the text quoted, with
/// quotes, backslashes and unprintable characters escaped.
pub uninterp spec fn debug_text(s: Seq<char>) -> Seq<char>;

/// Renders `s` with `Debug` (`format!("{:?}", s)`); the contract names the
/// result by `debug_text` and states nothing more of std's escaping rules.
#[verifier::external_body]
fn debug_string(s: &String) -> (r: String)
    ensures
        r@ == debug_text(s@),
{
    format!("{:?}", s)
}

pub const BAD_REQUEST: u16 = 400;

pub const INTERNAL_SERVER_ERROR: u16 = 500;

/// The status that answers each error.
pub open spec fn spec_status(e: HttpResError) -> u16 {
    match e {
        HttpResError::SerdeJSON(_) => INTERNAL_SERVER_ERROR,
        HttpResError::BadRequest(_) => BAD_REQUEST,
        HttpResError::HttpValidation(_) => BAD_REQUEST,
        HttpResError::Sqlite(_) => BAD_REQUEST,
        HttpResError::TokioRusqlite(_) => INTERNAL_SERVER_ERROR,
    }
}

/// The message of each error, which is also the answer's body.
pub open spec fn spec_message(e: HttpResError) -> Seq<char> {
    match e {
        HttpResError::SerdeJSON(d) => "Bad Request: "@ + d@,
        HttpResError::BadRequest(s) => "Bad Request: "@ + debug_text(s@),
        HttpResError::HttpValidation(d) => "Validation failed: "@ + d@,
        HttpResError::Sqlite(d) => "A database operation failed  :"@ + d@,
        HttpResError::TokioRusqlite(_) => "Failed to connect to the database service"@,
    }
}

impl HttpResError {
    /// The HTTP status of the answer to this error.
    pub fn status_code(&self) -> (r: u16)
        ensures
            r == spec_status(*self),
    {
        match self {
            HttpResError::SerdeJSON(_) => INTERNAL_SERVER_ERROR,
            HttpResError::BadRequest(_) => BAD_REQUEST,
            HttpResError::HttpValidation(_) => BAD_REQUEST,
            HttpResError::Sqlite(_) => BAD_REQUEST,
            HttpResError::TokioRusqlite(_) => INTERNAL_SERVER_ERROR,
        }
    }

    /// The error's message, as its `Display` would write it.
    pub fn to_message(&self) -> (r: String)
        ensures
            r@ == spec_message(*self),
    {
        match self {
            HttpResError::SerdeJSON(d) => {
                let mut m = String::from_str("Bad Request: ");
                m.append(d.as_str());
                m
            },
            HttpResError::BadRequest(s) => {
                let mut m = String::from_str("Bad Request: ");
                m.append(debug_string(s).as_str());
                m
            },
            HttpResError::HttpValidation(d) => {
                let mut m = String::from_str("Validation failed: ");
                m.append(d.as_str());
                m
            },
            HttpResError::Sqlite(d) => {
                let mut m = String::from_str("A database operation failed  :");
                m.append(d.as_str());
                m
            },
            HttpResError::TokioRusqlite(_) => String::from_str(
                "Failed to connect to the database service",
            ),
        }
    }

    /// The answer to this error: its status and its plain-text body.
    pub fn into_response(&self) -> (r: (u16, String))
        ensures
            r.0 == spec_status(*self),
            r.1@ == spec_message(*self),
    {
        (self.status_code(), self.to_message())
    }
}

/// Every error is answered `400` or `500`: `400` exactly for what the client
/// sent (a bad request, a broken validation rule, a statement that the
/// database refused), `500` for the service's own failures.
pub proof fn lemma_status_is_client_or_server_error(e: HttpResError)
    ensures
        spec_status(e) == BAD_REQUEST || spec_status(e) == INTERNAL_SERVER_ERROR,
        spec_status(e) == BAD_REQUEST <==> (e is BadRequest || e is HttpValidation || e is Sqlite),
{
}

/// A JSON error body: `{"msg": ...}`.
#[derive(Clone, Debug, PartialEq, Eq)]
pub struct HttpResErrorResponse {
    msg: String,
}

impl HttpResErrorResponse {
    pub closed spec fn spec_msg(&self) -> Seq<char> {
        self.msg@
    }

    /// The body that carries `msg`.
    pub fn new(msg: String) -> (r: Self)
        ensures
            r.spec_msg() == msg@,
    {
        HttpResErrorResponse { msg }
    }

    /// The message that the body carries.
    pub fn msg(&self) -> (r: &String)
        ensures
            r@ == self.spec_msg(),
    {
        &self.msg
    }
}

} // verus!

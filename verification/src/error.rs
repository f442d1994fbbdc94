//! Errors of the service and their mapping onto RPC status classes.

use vstd::prelude::*;
use vstd::string::StringExecFns;

verus! {

/// Possible errors that can arise during parsing, querying and streaming.
/// The store's own error is carried as its message text.
#[derive(Debug)]
pub enum ServiceError {
    ParseError(String),
    DatabaseError(String),
    ConnectionError(String),
    InvalidCursor(String),
    NotFound(String),
    Unknown(String),
}

/// The status classes of the RPC layer that service errors map onto.
#[derive(PartialEq, Eq, Structural, Clone, Copy, Debug)]
pub enum StatusCode {
    InvalidArgument,
    NotFound,
    Unknown,
    OutOfRange,
    Internal,
}

/// An RPC status: a class and a diagnostic message.
pub struct Status {
    pub code: StatusCode,
    pub message: String,
}

impl ServiceError {
    /// The message carried by the error.
    pub open spec fn spec_message(&self) -> Seq<char> {
        match self {
            ServiceError::ParseError(m) => m@,
            ServiceError::DatabaseError(m) => m@,
            ServiceError::ConnectionError(m) => m@,
            ServiceError::InvalidCursor(m) => m@,
            ServiceError::NotFound(m) => m@,
            ServiceError::Unknown(m) => m@,
        }
    }

    /// The status class this error surfaces as: malformed input is the
    /// caller's fault, absence is not-found, store trouble is internal.
    pub open spec fn spec_status_code(&self) -> StatusCode {
        match self {
            ServiceError::ParseError(_) => StatusCode::InvalidArgument,
            ServiceError::NotFound(_) => StatusCode::NotFound,
            ServiceError::Unknown(_) => StatusCode::Unknown,
            ServiceError::InvalidCursor(_) => StatusCode::OutOfRange,
            ServiceError::DatabaseError(_) => StatusCode::Internal,
            ServiceError::ConnectionError(_) => StatusCode::Internal,
        }
    }

    /// Diagnostic message of the error, never swallowed.
    pub fn message(&self) -> (r: String)
        ensures
            r@ == self.spec_message(),
    {
        match self {
            ServiceError::ParseError(m) => m.clone(),
            ServiceError::DatabaseError(m) => m.clone(),
            ServiceError::ConnectionError(m) => m.clone(),
            ServiceError::InvalidCursor(m) => m.clone(),
            ServiceError::NotFound(m) => m.clone(),
            ServiceError::Unknown(m) => m.clone(),
        }
    }

    /// Short description of the error: a malformed cursor reads as a
    /// fixed phrase, every other error as its own message.
    pub fn description(&self) -> (r: String)
        ensures
            self is InvalidCursor ==> r@ == "Invalid cursor value"@,
            !(self is InvalidCursor) ==> r@ == self.spec_message(),
    {
        match self {
            ServiceError::InvalidCursor(_) => String::from_str("Invalid cursor value"),
            _ => self.message(),
        }
    }

    /// Maps the error onto the status the RPC layer reports.
    pub fn to_status(&self) -> (r: Status)
        ensures
            r.code == self.spec_status_code(),
            r.message@ == self.spec_message(),
    {
        let code = match self {
            ServiceError::ParseError(_) => StatusCode::InvalidArgument,
            ServiceError::NotFound(_) => StatusCode::NotFound,
            ServiceError::Unknown(_) => StatusCode::Unknown,
            ServiceError::InvalidCursor(_) => StatusCode::OutOfRange,
            ServiceError::DatabaseError(_) => StatusCode::Internal,
            ServiceError::ConnectionError(_) => StatusCode::Internal,
        };
        Status { code, message: self.message() }
    }
}

/// A bare message is an unclassified error.
impl From<String> for ServiceError {
    fn from(message: String) -> (r: ServiceError) {
        ServiceError::Unknown(message)
    }
}

impl vstd::std_specs::convert::FromSpecImpl<String> for ServiceError {
    open spec fn obeys_from_spec() -> bool {
        true
    }

    open spec fn from_spec(message: String) -> ServiceError {
        ServiceError::Unknown(message)
    }
}

} // verus!

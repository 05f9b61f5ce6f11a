//! Server-level error classification and the HTTP status code each
//! class maps to. Outside failures (authentication, database) are
//! carried as the kind the classification reads, not the foreign
//! error values themselves.

use vstd::prelude::*;

use crate::game_error::GameError;

verus! {

/// Why authentication failed.
#[derive(Clone, Copy, Debug, PartialEq, Eq, Structural)]
pub enum AuthenticationError {
    MissingToken,
    Forbidden,
    MalformedJWT,
    MissingSubject,
    InternalError,
    InvalidJWT,
}

/// How a database operation failed: the record was absent, or anything
/// else.
#[derive(Clone, Copy, Debug, PartialEq, Eq, Structural)]
pub enum DatabaseError {
    NotFound,
    Other,
}

/// The body of an error reply.
#[derive(Clone, Debug, PartialEq, Eq)]
pub struct ErrorResponse {
    pub code: u16,
    pub message: String,
}

/// A request-level failure, classified for reporting.
#[derive(Clone, Debug, PartialEq, Eq)]
pub enum ServerError {
    AuthenticationError(AuthenticationError),
    UserInputError { field: String, reason: String },
    GameError(GameError),
    DatabaseError(DatabaseError),
    Unimplemented,
}

impl ServerError {
    /// The HTTP status code for each error class.
    pub open spec fn spec_status_code(self) -> u16 {
        match self {
            ServerError::GameError(_) => 400,
            ServerError::AuthenticationError(err) => match err {
                AuthenticationError::MissingToken => 401,
                AuthenticationError::Forbidden => 403,
                AuthenticationError::MalformedJWT => 400,
                AuthenticationError::MissingSubject => 400,
                AuthenticationError::InternalError => 500,
                AuthenticationError::InvalidJWT => 401,
            },
            ServerError::UserInputError { .. } => 400,
            ServerError::DatabaseError(err) => match err {
                DatabaseError::NotFound => 404,
                DatabaseError::Other => 500,
            },
            ServerError::Unimplemented => 500,
        }
    }

    pub fn status_code(&self) -> (code: u16)
        ensures
            code == self.spec_status_code(),
    {
        match self {
            ServerError::GameError(_) => 400,
            ServerError::AuthenticationError(err) => match err {
                AuthenticationError::MissingToken => 401,
                AuthenticationError::Forbidden => 403,
                AuthenticationError::MalformedJWT => 400,
                AuthenticationError::MissingSubject => 400,
                AuthenticationError::InternalError => 500,
                AuthenticationError::InvalidJWT => 401,
            },
            ServerError::UserInputError { .. } => 400,
            ServerError::DatabaseError(err) => match err {
                DatabaseError::NotFound => 404,
                DatabaseError::Other => 500,
            },
            ServerError::Unimplemented => 500,
        }
    }

    /// The reply body for this error: its status code beside the
    /// caller-rendered message.
    pub fn error_response(&self, message: String) -> (r: ErrorResponse)
        ensures
            r.code == self.spec_status_code(),
            r.message@ == message@,
    {
        ErrorResponse { code: self.status_code(), message }
    }
}

} // verus!

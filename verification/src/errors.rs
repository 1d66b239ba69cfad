//! The application error taxonomy and its mapping to stable HTTP statuses
//! and machine-readable codes.

use vstd::prelude::*;

verus! {

/// Every error a request can end with. All of them are terminal for the
/// current request: nothing is retried internally.
#[derive(Debug)]
pub enum TalliiError {
    /// Storage fault, including a failed or aborted transaction.
    DatabaseError(String),
    /// An unexpected internal fault, with a diagnostic message.
    InternalServerError(String),
    /// Credentials (or the requested action) were rejected.
    Unauthorized,
    /// Valid identity, but it does not own the resource it tries to mutate.
    Forbidden,
    /// The email handed to signup already belongs to a user.
    UserEmailTaken,
    /// No usable `Authorization: Bearer <token>` header on the request.
    MissingBearerToken,
    /// Bad signature, malformed payload, or expired token.
    InvalidToken,
    /// Malformed input payload, caught before any storage work starts.
    ValidationError(String),
    /// A referenced entity does not exist.
    NotFound,
    /// The process-wide signing secret is missing.
    ConfigurationError,
}

/// Payload returned to the client when a request fails: `code` is the
/// stable contract clients branch on, `message` is diagnostic text.
pub struct ErrorResponse {
    pub code: String,
    pub message: String,
}

/// The stable HTTP status for each error kind.
pub open spec fn spec_status_of(e: TalliiError) -> int {
    match e {
        TalliiError::DatabaseError(_) => 500,
        TalliiError::InternalServerError(_) => 500,
        TalliiError::Unauthorized => 401,
        TalliiError::Forbidden => 403,
        TalliiError::UserEmailTaken => 401,
        TalliiError::MissingBearerToken => 401,
        TalliiError::InvalidToken => 401,
        TalliiError::ValidationError(_) => 400,
        TalliiError::NotFound => 404,
        TalliiError::ConfigurationError => 500,
    }
}

/// The stable machine-readable code for each error kind.
pub open spec fn spec_code_of(e: TalliiError) -> Seq<char> {
    match e {
        TalliiError::DatabaseError(_) => "DATABASE_ERROR"@,
        TalliiError::InternalServerError(_) => "INTERNAL_SERVER_ERROR"@,
        TalliiError::Unauthorized => "UNAUTHORIZED"@,
        TalliiError::Forbidden => "FORBIDDEN"@,
        TalliiError::UserEmailTaken => "USER_EMAIL_TAKEN"@,
        TalliiError::MissingBearerToken => "UNAUTHORIZED"@,
        TalliiError::InvalidToken => "UNAUTHORIZED"@,
        TalliiError::ValidationError(_) => "VALIDATION_ERROR"@,
        TalliiError::NotFound => "NOT_FOUND"@,
        TalliiError::ConfigurationError => "CONFIGURATION_ERROR"@,
    }
}

/// The user-visible diagnostic message for each error kind. Kinds that
/// carry a fault description surface that description.
pub open spec fn spec_message_of(e: TalliiError) -> Seq<char> {
    match e {
        TalliiError::DatabaseError(m) => m@,
        TalliiError::InternalServerError(m) => m@,
        TalliiError::Unauthorized => "the provided credentials are invalid."@,
        TalliiError::Forbidden => "not allowed to perform this action."@,
        TalliiError::UserEmailTaken => "the provided email has been taken."@,
        TalliiError::MissingBearerToken => "missing bearer token."@,
        TalliiError::InvalidToken => "the provided token is invalid."@,
        TalliiError::ValidationError(m) => m@,
        TalliiError::NotFound => "Not Found"@,
        TalliiError::ConfigurationError => "the signing secret is not configured."@,
    }
}

/// Maps an error to the HTTP status and the common error payload that every
/// failing request answers with.
pub fn error_to_response(e: &TalliiError) -> (r: (u16, ErrorResponse))
    ensures
        r.0 == spec_status_of(*e),
        r.1.code@ == spec_code_of(*e),
        r.1.message@ == spec_message_of(*e),
{
    match e {
        TalliiError::DatabaseError(m) => (
            500,
            ErrorResponse { code: "DATABASE_ERROR".to_owned(), message: m.clone() },
        ),
        TalliiError::InternalServerError(m) => (
            500,
            ErrorResponse { code: "INTERNAL_SERVER_ERROR".to_owned(), message: m.clone() },
        ),
        TalliiError::Unauthorized => (
            401,
            ErrorResponse {
                code: "UNAUTHORIZED".to_owned(),
                message: "the provided credentials are invalid.".to_owned(),
            },
        ),
        TalliiError::Forbidden => (
            403,
            ErrorResponse {
                code: "FORBIDDEN".to_owned(),
                message: "not allowed to perform this action.".to_owned(),
            },
        ),
        TalliiError::UserEmailTaken => (
            401,
            ErrorResponse {
                code: "USER_EMAIL_TAKEN".to_owned(),
                message: "the provided email has been taken.".to_owned(),
            },
        ),
        TalliiError::MissingBearerToken => (
            401,
            ErrorResponse {
                code: "UNAUTHORIZED".to_owned(),
                message: "missing bearer token.".to_owned(),
            },
        ),
        TalliiError::InvalidToken => (
            401,
            ErrorResponse {
                code: "UNAUTHORIZED".to_owned(),
                message: "the provided token is invalid.".to_owned(),
            },
        ),
        TalliiError::ValidationError(m) => (
            400,
            ErrorResponse { code: "VALIDATION_ERROR".to_owned(), message: m.clone() },
        ),
        TalliiError::NotFound => (
            404,
            ErrorResponse { code: "NOT_FOUND".to_owned(), message: "Not Found".to_owned() },
        ),
        TalliiError::ConfigurationError => (
            500,
            ErrorResponse {
                code: "CONFIGURATION_ERROR".to_owned(),
                message: "the signing secret is not configured.".to_owned(),
            },
        ),
    }
}

} // verus!

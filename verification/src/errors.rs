//! Error taxonomy of the authentication backend.
//!
//! Every fallible operation in the library returns an [`AppError`].  Each
//! variant corresponds to one HTTP status class; [`AppError::status_code`]
//! gives the code and [`AppError::error_response`] renders the uniform
//! envelope that the request boundary serialises for clients.

use vstd::prelude::*;

verus! {

/// A typed error carried from the core up to the request boundary.
///
/// The string payload is a human-readable message; it is included in the
/// rendered envelope but never carries internal store or crypto details.
#[derive(Debug)]
pub enum AppError {
    BadRequest(String),
    Unauthorized(String),
    Forbidden(String),
    NotFound(String),
    UnprocessableEntity(String),
    Conflict(String),
    InternalServerError(String),
    ValidationError(String),
    DbError(String),
    Argon2Error(String),
    RedisError(String),
}

/// The uniform JSON envelope rendered for clients: status code, the
/// status line's reason phrase, and the category message.
#[derive(Debug)]
pub struct ErrorResponse {
    pub status_code: u16,
    pub error: String,
    pub message: String,
}

impl AppError {
    /// The HTTP status code that this error class maps to.
    pub open spec fn spec_status_code(&self) -> u16 {
        match self {
            AppError::BadRequest(_) => 400,
            AppError::Unauthorized(_) => 401,
            AppError::Forbidden(_) => 403,
            AppError::NotFound(_) => 404,
            AppError::UnprocessableEntity(_) => 422,
            AppError::Conflict(_) => 409,
            AppError::InternalServerError(_) => 500,
            AppError::ValidationError(_) => 400,
            AppError::DbError(_) => 500,
            AppError::Argon2Error(_) => 500,
            AppError::RedisError(_) => 500,
        }
    }

    /// The message rendered for this error: a class prefix followed by the
    /// variant's own text.
    pub open spec fn spec_message(&self) -> Seq<char> {
        match self {
            AppError::BadRequest(m) => "Bad Request: "@ + m@,
            AppError::Unauthorized(m) => "Unauthorized: "@ + m@,
            AppError::Forbidden(m) => "Forbidden: "@ + m@,
            AppError::NotFound(m) => "Not Found: "@ + m@,
            AppError::UnprocessableEntity(m) => "Unprocessable Entity: "@ + m@,
            AppError::Conflict(m) => "Conflict: "@ + m@,
            AppError::InternalServerError(m) => "Internal Server Error: "@ + m@,
            AppError::ValidationError(m) => "Validation Error: "@ + m@,
            AppError::DbError(m) => "Database Error: "@ + m@,
            AppError::Argon2Error(m) => "Argon2 Error: "@ + m@,
            AppError::RedisError(m) => "Redis error: "@ + m@,
        }
    }

    pub fn status_code(&self) -> (code: u16)
        ensures
            code == self.spec_status_code(),
    {
        match self {
            AppError::BadRequest(_) => 400,
            AppError::Unauthorized(_) => 401,
            AppError::Forbidden(_) => 403,
            AppError::NotFound(_) => 404,
            AppError::UnprocessableEntity(_) => 422,
            AppError::Conflict(_) => 409,
            AppError::InternalServerError(_) => 500,
            AppError::ValidationError(_) => 400,
            AppError::DbError(_) => 500,
            AppError::Argon2Error(_) => 500,
            AppError::RedisError(_) => 500,
        }
    }

    /// The message rendered for this error, exactly [`Self::spec_message`].
    pub fn message(&self) -> (msg: String)
        ensures
            msg@ == self.spec_message(),
    {
        match self {
            AppError::BadRequest(m) => String::from_str("Bad Request: ").concat(m.as_str()),
            AppError::Unauthorized(m) => String::from_str("Unauthorized: ").concat(m.as_str()),
            AppError::Forbidden(m) => String::from_str("Forbidden: ").concat(m.as_str()),
            AppError::NotFound(m) => String::from_str("Not Found: ").concat(m.as_str()),
            AppError::UnprocessableEntity(m) => String::from_str("Unprocessable Entity: ").concat(
                m.as_str(),
            ),
            AppError::Conflict(m) => String::from_str("Conflict: ").concat(m.as_str()),
            AppError::InternalServerError(m) => String::from_str("Internal Server Error: ").concat(
                m.as_str(),
            ),
            AppError::ValidationError(m) => String::from_str("Validation Error: ").concat(
                m.as_str(),
            ),
            AppError::DbError(m) => String::from_str("Database Error: ").concat(m.as_str()),
            AppError::Argon2Error(m) => String::from_str("Argon2 Error: ").concat(m.as_str()),
            AppError::RedisError(m) => String::from_str("Redis error: ").concat(m.as_str()),
        }
    }
}

/// The reason phrase of each status code this library produces.
pub open spec fn spec_reason_phrase(code: u16) -> Seq<char> {
    if code == 400 {
        "Bad Request"@
    } else if code == 401 {
        "Unauthorized"@
    } else if code == 403 {
        "Forbidden"@
    } else if code == 404 {
        "Not Found"@
    } else if code == 409 {
        "Conflict"@
    } else if code == 422 {
        "Unprocessable Entity"@
    } else if code == 500 {
        "Internal Server Error"@
    } else {
        "Unknown"@
    }
}

/// The reason phrase for a status code, exactly [`spec_reason_phrase`].
pub fn reason_phrase(code: u16) -> (phrase: String)
    ensures
        phrase@ == spec_reason_phrase(code),
{
    if code == 400 {
        String::from_str("Bad Request")
    } else if code == 401 {
        String::from_str("Unauthorized")
    } else if code == 403 {
        String::from_str("Forbidden")
    } else if code == 404 {
        String::from_str("Not Found")
    } else if code == 409 {
        String::from_str("Conflict")
    } else if code == 422 {
        String::from_str("Unprocessable Entity")
    } else if code == 500 {
        String::from_str("Internal Server Error")
    } else {
        String::from_str("Unknown")
    }
}

impl AppError {
    /// Renders the uniform envelope: the status code, its reason phrase and
    /// the category message, exactly as specified field by field.
    pub fn error_response(&self) -> (resp: ErrorResponse)
        ensures
            resp.status_code == self.spec_status_code(),
            resp.error@ == spec_reason_phrase(self.spec_status_code()),
            resp.message@ == self.spec_message(),
    {
        let status = self.status_code();
        ErrorResponse { status_code: status, error: reason_phrase(status), message: self.message() }
    }

    pub fn not_found(resource: &str) -> (e: Self)
        ensures
            (e matches AppError::NotFound(m) && m@ == "Resource not found: "@ + resource@),
    {
        AppError::NotFound(String::from_str("Resource not found: ").concat(resource))
    }

    pub fn unauthorized(reason: &str) -> (e: Self)
        ensures
            (e matches AppError::Unauthorized(m) && m@ == "Unauthorized access: "@ + reason@),
    {
        AppError::Unauthorized(String::from_str("Unauthorized access: ").concat(reason))
    }

    pub fn forbidden(reason: &str) -> (e: Self)
        ensures
            (e matches AppError::Forbidden(m) && m@ == "Access forbidden: "@ + reason@),
    {
        AppError::Forbidden(String::from_str("Access forbidden: ").concat(reason))
    }

    pub fn bad_request(message: &str) -> (e: Self)
        ensures
            (e matches AppError::BadRequest(m) && m@ == "Bad request: "@ + message@),
    {
        AppError::BadRequest(String::from_str("Bad request: ").concat(message))
    }

    pub fn conflict(message: &str) -> (e: Self)
        ensures
            (e matches AppError::Conflict(m) && m@ == "Conflict occurred: "@ + message@),
    {
        AppError::Conflict(String::from_str("Conflict occurred: ").concat(message))
    }

    pub fn internal_error(message: &str) -> (e: Self)
        ensures
            (e matches AppError::InternalServerError(m) && m@ == "Internal server error: "@
                + message@),
    {
        AppError::InternalServerError(String::from_str("Internal server error: ").concat(message))
    }

    pub fn validation_error(message: &str) -> (e: Self)
        ensures
            (e matches AppError::ValidationError(m) && m@ == "Validation error: "@ + message@),
    {
        AppError::ValidationError(String::from_str("Validation error: ").concat(message))
    }

    pub fn db_error(message: &str) -> (e: Self)
        ensures
            (e matches AppError::DbError(m) && m@ == "Database error: "@ + message@),
    {
        AppError::DbError(String::from_str("Database error: ").concat(message))
    }

    /// The uniform reply for a token that fails structure or signature checks.
    pub fn token_invalid() -> (e: Self)
        ensures
            (e matches AppError::Unauthorized(m) && m@ == "Invalid authentication token"@),
    {
        AppError::Unauthorized(String::from_str("Invalid authentication token"))
    }

    /// The uniform reply for a token whose validity window has passed.
    pub fn token_expired() -> (e: Self)
        ensures
            (e matches AppError::Unauthorized(m) && m@ == "Authentication token expired"@),
    {
        AppError::Unauthorized(String::from_str("Authentication token expired"))
    }

    /// The uniform reply for a request that carries no usable token.
    pub fn token_missing() -> (e: Self)
        ensures
            (e matches AppError::Unauthorized(m) && m@ == "Authentication token is missing"@),
    {
        AppError::Unauthorized(String::from_str("Authentication token is missing"))
    }
}

} // verus!

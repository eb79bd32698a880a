//! Error taxonomy of the gateway, with the HTTP status each kind maps to.

use vstd::prelude::*;

verus! {

/// Request-scoped failures raised by the route handlers.
#[derive(Debug, Clone, PartialEq, Eq)]
pub enum ServerError {
    Validation(String),
    Database(String),
    Authentication(String),
}

impl ServerError {
    /// The HTTP status this error is reported with.
    pub open spec fn spec_status_code(&self) -> u16 {
        match self {
            ServerError::Validation(_) => 400,
            ServerError::Database(_) => 500,
            ServerError::Authentication(_) => 401,
        }
    }

    pub fn status_code(&self) -> (code: u16)
        ensures
            code == self.spec_status_code(),
    {
        match self {
            ServerError::Validation(_) => 400,
            ServerError::Database(_) => 500,
            ServerError::Authentication(_) => 401,
        }
    }

    /// A human-readable description, in place of a `Display` impl.
    pub fn describe(&self) -> (msg: String)
        ensures
            forall|m: String| *self == ServerError::Validation(m) ==> msg@ == "Validation error: "@ + m@,
            forall|m: String| *self == ServerError::Database(m) ==> msg@ == "Database error: "@ + m@,
            forall|m: String| *self == ServerError::Authentication(m) ==> msg@ == "Authentication error: "@
                + m@,
    {
        match self {
            ServerError::Validation(m) => String::from_str("Validation error: ").concat(m.as_str()),
            ServerError::Database(m) => String::from_str("Database error: ").concat(m.as_str()),
            ServerError::Authentication(m) => String::from_str("Authentication error: ").concat(
                m.as_str(),
            ),
        }
    }
}

/// Failures of bearer-credential handling on protected routes.
#[derive(Debug, Clone, Copy, PartialEq, Eq, Structural)]
pub enum JwtError {
    /// No `Authorization` header was supplied.
    MissingAuthHeader,
    /// The header does not have the `Bearer <token>` shape.
    InvalidTokenFormat,
    /// The token's signature does not verify, or the token has expired.
    DecodeError,
    /// The token could not be signed at issue time.
    EncodingError,
}

impl JwtError {
    /// The HTTP status this error is reported with.
    pub open spec fn spec_status_code(&self) -> u16 {
        match self {
            JwtError::MissingAuthHeader => 401,
            JwtError::InvalidTokenFormat => 400,
            JwtError::DecodeError => 401,
            JwtError::EncodingError => 401,
        }
    }

    pub fn status_code(&self) -> (code: u16)
        ensures
            code == self.spec_status_code(),
    {
        match self {
            JwtError::MissingAuthHeader => 401,
            JwtError::InvalidTokenFormat => 400,
            JwtError::DecodeError => 401,
            JwtError::EncodingError => 401,
        }
    }

    /// A human-readable description, in place of a `Display` impl.
    pub fn describe(&self) -> (msg: String)
        ensures
            *self == JwtError::MissingAuthHeader ==> msg@ == "Auth header is missing"@,
            *self == JwtError::InvalidTokenFormat ==> msg@
                == "Invalid token format. Expected: Bearer <token>"@,
            *self == JwtError::DecodeError ==> msg@ == "Invalid or expired token"@,
            *self == JwtError::EncodingError ==> msg@ == "Invalid or expired token"@,
    {
        match self {
            JwtError::MissingAuthHeader => String::from_str("Auth header is missing"),
            JwtError::InvalidTokenFormat => String::from_str(
                "Invalid token format. Expected: Bearer <token>",
            ),
            JwtError::DecodeError => String::from_str("Invalid or expired token"),
            JwtError::EncodingError => String::from_str("Invalid or expired token"),
        }
    }
}

} // verus!

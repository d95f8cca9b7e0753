//! The request-level error taxonomy and its HTTP mapping.
//!
//! Errors are returned, never raised. Each kind carries its message and maps
//! to one HTTP status code; the process edge turns the pair into a response.

use vstd::prelude::*;

verus! {

/// Why a request failed.
#[derive(Debug, Clone)]
pub enum AppError {
    DatabaseError(String),
    NotFound(String),
    InvalidInput(String),
    InvalidAmount(String),
    InvalidNonce(String),
    InvalidSignature(String),
    InsufficientBalance(String),
    WebSocketError(String),
}

impl AppError {
    /// The HTTP status code this error maps to.
    pub open spec fn status_code_spec(self) -> u16 {
        match self {
            AppError::DatabaseError(_) => 500,
            AppError::NotFound(_) => 404,
            AppError::InvalidInput(_) => 400,
            AppError::InvalidAmount(_) => 400,
            AppError::InvalidNonce(_) => 400,
            AppError::InvalidSignature(_) => 401,
            AppError::InsufficientBalance(_) => 400,
            AppError::WebSocketError(_) => 500,
        }
    }

    /// Maps the error to its HTTP status code: 500 for internal failures,
    /// 404 for a missing resource, 401 for a bad signature, 400 otherwise.
    pub fn status_code(&self) -> (r: u16)
        ensures
            r == self.status_code_spec(),
    {
        match self {
            AppError::DatabaseError(_) => 500,
            AppError::NotFound(_) => 404,
            AppError::InvalidInput(_) => 400,
            AppError::InvalidAmount(_) => 400,
            AppError::InvalidNonce(_) => 400,
            AppError::InvalidSignature(_) => 401,
            AppError::InsufficientBalance(_) => 400,
            AppError::WebSocketError(_) => 500,
        }
    }

    /// The user-visible description: the kind's label, then the carried
    /// message.
    pub open spec fn message_spec(self) -> Seq<char> {
        match self {
            AppError::DatabaseError(m) => "Database error: "@ + m@,
            AppError::NotFound(m) => "Not found: "@ + m@,
            AppError::InvalidInput(m) => "Invalid input: "@ + m@,
            AppError::InvalidAmount(m) => "Invalid amount: "@ + m@,
            AppError::InvalidNonce(m) => "Invalid nonce: "@ + m@,
            AppError::InvalidSignature(m) => "Invalid signature: "@ + m@,
            AppError::InsufficientBalance(m) => "Insufficient balance: "@ + m@,
            AppError::WebSocketError(m) => "WebSocket error: "@ + m@,
        }
    }

    /// Renders the user-visible description.
    pub fn message(&self) -> (r: String)
        ensures
            r@ == self.message_spec(),
    {
        match self {
            AppError::DatabaseError(m) => String::from_str("Database error: ").concat(m.as_str()),
            AppError::NotFound(m) => String::from_str("Not found: ").concat(m.as_str()),
            AppError::InvalidInput(m) => String::from_str("Invalid input: ").concat(m.as_str()),
            AppError::InvalidAmount(m) => String::from_str("Invalid amount: ").concat(m.as_str()),
            AppError::InvalidNonce(m) => String::from_str("Invalid nonce: ").concat(m.as_str()),
            AppError::InvalidSignature(m) => String::from_str("Invalid signature: ").concat(
                m.as_str(),
            ),
            AppError::InsufficientBalance(m) => String::from_str(
                "Insufficient balance: ",
            ).concat(m.as_str()),
            AppError::WebSocketError(m) => String::from_str("WebSocket error: ").concat(
                m.as_str(),
            ),
        }
    }
}

} // verus!

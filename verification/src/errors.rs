//! The application's error taxonomy and its fixed mappings to response
//! status codes and message texts.

use vstd::prelude::*;
use vstd::string::*;

verus! {

/// Why an operation failed; each variant carries its detail message.
#[derive(Clone, Debug)]
pub enum AppError {
    Auth(String),
    Engine(String),
    Database(String),
    NotFound(String),
    Internal(String),
}

impl AppError {
    /// The HTTP status code the error maps to.
    pub fn status_code(&self) -> (r: u16)
        ensures
            r == (match self {
                AppError::Auth(_) => 401u16,
                AppError::Engine(_) => 500u16,
                AppError::Database(_) => 503u16,
                AppError::NotFound(_) => 404u16,
                AppError::Internal(_) => 500u16,
            }),
    {
        match self {
            AppError::Auth(_) => 401,
            AppError::Engine(_) => 500,
            AppError::Database(_) => 503,
            AppError::NotFound(_) => 404,
            AppError::Internal(_) => 500,
        }
    }

    /// The detail message carried in the error response body.
    pub fn detail(&self) -> (r: String)
        ensures
            r@ == (match self {
                AppError::Auth(m) => m@,
                AppError::Engine(m) => m@,
                AppError::Database(m) => m@,
                AppError::NotFound(m) => m@,
                AppError::Internal(m) => m@,
            }),
    {
        match self {
            AppError::Auth(m) => m.clone(),
            AppError::Engine(m) => m.clone(),
            AppError::Database(m) => m.clone(),
            AppError::NotFound(m) => m.clone(),
            AppError::Internal(m) => m.clone(),
        }
    }

    /// The error's display text: its kind, then the detail message.
    pub fn display_text(&self) -> (r: String)
        ensures
            r@ == (match self {
                AppError::Auth(m) => "Authentication error: "@ + m@,
                AppError::Engine(m) => "Engine error: "@ + m@,
                AppError::Database(m) => "Database error: "@ + m@,
                AppError::NotFound(m) => "Not found: "@ + m@,
                AppError::Internal(m) => "Internal error: "@ + m@,
            }),
    {
        match self {
            AppError::Auth(m) => {
                let mut s = String::from_str("Authentication error: ");
                s.append(m.as_str());
                s
            },
            AppError::Engine(m) => {
                let mut s = String::from_str("Engine error: ");
                s.append(m.as_str());
                s
            },
            AppError::Database(m) => {
                let mut s = String::from_str("Database error: ");
                s.append(m.as_str());
                s
            },
            AppError::NotFound(m) => {
                let mut s = String::from_str("Not found: ");
                s.append(m.as_str());
                s
            },
            AppError::Internal(m) => {
                let mut s = String::from_str("Internal error: ");
                s.append(m.as_str());
                s
            },
        }
    }
}

} // verus!

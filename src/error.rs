use vstd::prelude::*;
use vstd::string::*;

verus! {

/// Errors of the simple token service.
#[derive(Debug, Clone, Copy, PartialEq, Eq, Structural)]
pub enum AppError {
    InvalidCredentials,
    InvalidToken,
    TokenExpired,
    InternalServerError,
}

impl AppError {
    /// The HTTP status of the error: 401 for the token and credential errors, else 500.
    pub fn status_code(&self) -> (r: u16)
        ensures
            r == (if *self == AppError::InternalServerError {
                500u16
            } else {
                401u16
            }),
    {
        match self {
            AppError::InternalServerError => 500,
            _ => 401,
        }
    }

    /// The text shown for the error.
    pub fn message(&self) -> (r: &'static str)
        ensures
            r@ == match *self {
                AppError::InvalidCredentials => "Invalid credentials"@,
                AppError::InvalidToken => "Invalid token"@,
                AppError::TokenExpired => "Token expired"@,
                AppError::InternalServerError => "Internal server error"@,
            },
    {
        match self {
            AppError::InvalidCredentials => "Invalid credentials",
            AppError::InvalidToken => "Invalid token",
            AppError::TokenExpired => "Token expired",
            AppError::InternalServerError => "Internal server error",
        }
    }
}

} // verus!

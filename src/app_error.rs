use vstd::prelude::*;
use vstd::string::*;

use crate::codec::{decimal_spec, decimal_string};

verus! {

/// Why an authentication step refused its input.
#[derive(Debug, Clone, Copy, PartialEq, Eq, Structural)]
pub enum AuthErrorKind {
    InvalidIdentity,
    InvalidSignature,
    NoActiveChallenge,
    TokenExpired,
    TokenInvalid,
    WrongTokenType,
}

/// Errors surfaced by the authentication core.
#[derive(Debug, Clone, PartialEq, Eq)]
pub enum AppError {
    ConfigError(String),
    DatabaseError(String),
    ServerError(String),
    SignalError(String),
    RateLimited { identifier: String, count: i32, window_seconds: i64 },
    AuthError(AuthErrorKind),
    OtherError(String),
}

/// The HTTP status that each error maps to.
pub open spec fn status_spec(e: AppError) -> u16 {
    match e {
        AppError::ConfigError(_) => 400,
        AppError::DatabaseError(_) => 500,
        AppError::ServerError(_) => 500,
        AppError::SignalError(_) => 503,
        AppError::RateLimited { .. } => 429,
        AppError::AuthError(k) => match k {
            AuthErrorKind::InvalidIdentity => 400,
            AuthErrorKind::InvalidSignature => 401,
            AuthErrorKind::NoActiveChallenge => 400,
            _ => 401,
        },
        AppError::OtherError(_) => 500,
    }
}

/// Writes `n` in decimal, with a minus sign when negative.
pub open spec fn signed_decimal_spec(n: int) -> Seq<char> {
    if n < 0 {
        seq!['-'] + decimal_spec((-n) as nat)
    } else {
        decimal_spec(n as nat)
    }
}

fn signed_decimal(n: i64) -> (r: String)
    ensures
        r@ == signed_decimal_spec(n as int),
{
    if n < 0 {
        let mut s = String::from_str("-");
        let digits = decimal_string((-(n as i128)) as u128);
        s.append(digits.as_str());
        proof {
            reveal_strlit("-");
        }
        assert(s@ =~= signed_decimal_spec(n as int));
        s
    } else {
        decimal_string(n as u128)
    }
}

impl AuthErrorKind {
    /// A short description of the refusal.
    pub fn description(&self) -> (r: &'static str) {
        match self {
            AuthErrorKind::InvalidIdentity => "Invalid address",
            AuthErrorKind::InvalidSignature => "Invalid signature",
            AuthErrorKind::NoActiveChallenge => "No active challenge found",
            AuthErrorKind::TokenExpired => "Token has expired",
            AuthErrorKind::TokenInvalid => "Invalid token",
            AuthErrorKind::WrongTokenType => "Invalid token type",
        }
    }
}

impl AppError {
    /// The HTTP status of the error.
    pub fn status_code(&self) -> (r: u16)
        ensures
            r == status_spec(*self),
    {
        match self {
            AppError::ConfigError(_) => 400,
            AppError::DatabaseError(_) => 500,
            AppError::ServerError(_) => 500,
            AppError::SignalError(_) => 503,
            AppError::RateLimited { .. } => 429,
            AppError::AuthError(k) => match k {
                AuthErrorKind::InvalidIdentity => 400,
                AuthErrorKind::InvalidSignature => 401,
                AuthErrorKind::NoActiveChallenge => 400,
                _ => 401,
            },
            AppError::OtherError(_) => 500,
        }
    }

    /// The text shown for the error: its kind, a colon, and its detail.
    pub fn message(&self) -> (r: String)
        ensures
            self matches AppError::ConfigError(m) ==> r@ == "Config Error: "@ + m@,
            self matches AppError::DatabaseError(m) ==> r@ == "Database Error: "@ + m@,
            self matches AppError::ServerError(m) ==> r@ == "Server Error: "@ + m@,
            self matches AppError::SignalError(m) ==> r@ == "Signal Error: "@ + m@,
            self matches AppError::OtherError(m) ==> r@ == "Other Error: "@ + m@,
            self matches AppError::RateLimited { identifier, count, window_seconds } ==> r@
                == "Rate limit exceeded for "@ + identifier@ + ": "@ + signed_decimal_spec(
                count as int,
            ) + " attempts in the last "@ + signed_decimal_spec(window_seconds as int)
                + " seconds"@,
    {
        match self {
            AppError::ConfigError(m) => String::from_str("Config Error: ").concat(m.as_str()),
            AppError::DatabaseError(m) => String::from_str("Database Error: ").concat(m.as_str()),
            AppError::ServerError(m) => String::from_str("Server Error: ").concat(m.as_str()),
            AppError::SignalError(m) => String::from_str("Signal Error: ").concat(m.as_str()),
            AppError::OtherError(m) => String::from_str("Other Error: ").concat(m.as_str()),
            AppError::RateLimited { identifier, count, window_seconds } => {
                let mut s = String::from_str("Rate limit exceeded for ");
                s.append(identifier.as_str());
                s.append(": ");
                let c = signed_decimal(*count as i64);
                s.append(c.as_str());
                s.append(" attempts in the last ");
                let w = signed_decimal(*window_seconds);
                s.append(w.as_str());
                s.append(" seconds");
                s
            },
            AppError::AuthError(k) => String::from_str("Auth Error: ").concat(k.description()),
        }
    }
}

} // verus!

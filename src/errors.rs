//! The domain error taxonomy shared by validation, the providers and the
//! protocol engine.

use vstd::prelude::*;
use vstd::string::StringExecFns;

verus! {

#[derive(Debug)]
pub enum AppError {
    BadRequest { code: &'static str, message: &'static str },
    Unauthorized { code: &'static str, message: &'static str },
    Forbidden { code: &'static str, message: &'static str },
    Internal { code: &'static str, message: String },
    NotImplemented { code: &'static str, message: &'static str },
}

/// `e` is a client-correctable error with machine code `code`.
pub open spec fn is_bad_request(e: AppError, code: Seq<char>) -> bool {
    e matches AppError::BadRequest { code: c, .. } && c@ == code
}

/// `e` is a forbidden error with machine code `code`.
pub open spec fn is_forbidden(e: AppError, code: Seq<char>) -> bool {
    e matches AppError::Forbidden { code: c, .. } && c@ == code
}

/// The machine-readable code of an error.
pub open spec fn code_of(e: AppError) -> Seq<char> {
    match e {
        AppError::BadRequest { code, .. } => code@,
        AppError::Unauthorized { code, .. } => code@,
        AppError::Forbidden { code, .. } => code@,
        AppError::Internal { code, .. } => code@,
        AppError::NotImplemented { code, .. } => code@,
    }
}

/// The human-readable rendering of an error.
pub open spec fn error_text(e: AppError) -> Seq<char> {
    match e {
        AppError::BadRequest { message, .. } => "bad request: "@ + message@,
        AppError::Unauthorized { message, .. } => "unauthorized: "@ + message@,
        AppError::Forbidden { message, .. } => "forbidden: "@ + message@,
        AppError::Internal { .. } => "internal error"@,
        AppError::NotImplemented { message, .. } => "not implemented: "@ + message@,
    }
}

impl AppError {
    pub fn bad_request(code: &'static str, message: &'static str) -> (r: Self)
        ensures
            r == (AppError::BadRequest { code, message }),
    {
        AppError::BadRequest { code, message }
    }

    pub fn unauthorized(code: &'static str, message: &'static str) -> (r: Self)
        ensures
            r == (AppError::Unauthorized { code, message }),
    {
        AppError::Unauthorized { code, message }
    }

    pub fn forbidden(code: &'static str, message: &'static str) -> (r: Self)
        ensures
            r == (AppError::Forbidden { code, message }),
    {
        AppError::Forbidden { code, message }
    }

    pub fn internal(message: String) -> (r: Self)
        ensures
            r matches AppError::Internal { code, message: m } && code@ == "internal_error"@ && m@
                == message@,
    {
        AppError::Internal { code: "internal_error", message }
    }

    pub fn not_implemented(code: &'static str, message: &'static str) -> (r: Self)
        ensures
            r == (AppError::NotImplemented { code, message }),
    {
        AppError::NotImplemented { code, message }
    }

    /// The machine-readable code.
    pub fn code(&self) -> (r: &'static str)
        ensures
            r@ == code_of(*self),
    {
        match self {
            AppError::BadRequest { code, .. } => code,
            AppError::Unauthorized { code, .. } => code,
            AppError::Forbidden { code, .. } => code,
            AppError::Internal { code, .. } => code,
            AppError::NotImplemented { code, .. } => code,
        }
    }

    /// The human-readable rendering, e.g. `bad request: <message>`.
    pub fn to_string(&self) -> (r: String)
        ensures
            r@ == error_text(*self),
    {
        match self {
            AppError::BadRequest { message, .. } => String::from_str("bad request: ").concat(message),
            AppError::Unauthorized { message, .. } => String::from_str("unauthorized: ").concat(
                message,
            ),
            AppError::Forbidden { message, .. } => String::from_str("forbidden: ").concat(message),
            AppError::Internal { .. } => String::from_str("internal error"),
            AppError::NotImplemented { message, .. } => String::from_str(
                "not implemented: ",
            ).concat(message),
        }
    }
}

} // verus!

//! Errors of the download engine.

use vstd::prelude::*;

use crate::text::{decimal_text, int_to_decimal, nat_to_decimal};

verus! {

/// What can go wrong while searching or downloading. Errors that come from
/// the HTTP client or the file system are carried as their message text.
#[derive(Debug, Clone)]
pub enum CoreError {
    Network(String),
    RateLimited { retry_after_secs: Option<u64> },
    Server { status: u16 },
    Parse(String),
    Io(String),
    Md5Mismatch { expected: String, actual: String },
    UnknownProvider(String),
    Cancelled,
}

/// `{:?}` of an `Option<u64>`.
pub open spec fn debug_option_u64(v: Option<u64>) -> Seq<char> {
    match v {
        Some(x) => "Some("@ + decimal_text(x as int) + ")"@,
        None => "None"@,
    }
}

/// The message text of an error.
pub open spec fn error_message(e: CoreError) -> Seq<char> {
    match e {
        CoreError::Network(m) => "network error: "@ + m@,
        CoreError::RateLimited { retry_after_secs } => "rate limited (HTTP 429), retry after "@
            + debug_option_u64(retry_after_secs) + "s"@,
        CoreError::Server { status } => "server error: HTTP "@ + decimal_text(status as int),
        CoreError::Parse(m) => "parse error: "@ + m@,
        CoreError::Io(m) => "io error: "@ + m@,
        CoreError::Md5Mismatch { expected, actual } => "md5 mismatch (expected "@ + expected@
            + ", got "@ + actual@ + ")"@,
        CoreError::UnknownProvider(p) => "provider "@ + p@ + " not found"@,
        CoreError::Cancelled => "operation cancelled"@,
    }
}

impl CoreError {
    /// The error's message, as it is shown to the user.
    pub fn message(&self) -> (r: String)
        ensures
            r@ == error_message(*self),
    {
        match self {
            CoreError::Network(m) => {
                let mut r = String::from_str("network error: ");
                r.append(m.as_str());
                r
            },
            CoreError::RateLimited { retry_after_secs } => {
                let mut r = String::from_str("rate limited (HTTP 429), retry after ");
                match retry_after_secs {
                    Some(x) => {
                        r.append("Some(");
                        let d = nat_to_decimal(*x);
                        r.append(d.as_str());
                        r.append(")");
                    },
                    None => {
                        r.append("None");
                    },
                }
                r.append("s");
                r
            },
            CoreError::Server { status } => {
                let mut r = String::from_str("server error: HTTP ");
                let d = int_to_decimal(*status as i64);
                r.append(d.as_str());
                r
            },
            CoreError::Parse(m) => {
                let mut r = String::from_str("parse error: ");
                r.append(m.as_str());
                r
            },
            CoreError::Io(m) => {
                let mut r = String::from_str("io error: ");
                r.append(m.as_str());
                r
            },
            CoreError::Md5Mismatch { expected, actual } => {
                let mut r = String::from_str("md5 mismatch (expected ");
                r.append(expected.as_str());
                r.append(", got ");
                r.append(actual.as_str());
                r.append(")");
                r
            },
            CoreError::UnknownProvider(p) => {
                let mut r = String::from_str("provider ");
                r.append(p.as_str());
                r.append(" not found");
                r
            },
            CoreError::Cancelled => String::from_str("operation cancelled"),
        }
    }
}

} // verus!

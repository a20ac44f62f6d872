//! The errors that the library's own logic reports.

use vstd::prelude::*;
use crate::text::{decimal, push_decimal};

verus! {

/// What went wrong, with the offending input.
#[derive(Debug, Clone, PartialEq, Eq)]
pub enum Error {
    /// A CNPJ that does not have exactly 14 digits.
    InvalidCnpj(String),
    /// A period that is not written `YYYY-MM`.
    InvalidPeriod(String),
    /// A data file, directory or listing entry that is not there.
    MissingData(String),
    /// An HTTP answer whose status is not a success.
    Http { url: String, status: u16 },
}

/// The message that is shown for an error.
pub open spec fn error_message(e: Error) -> Seq<char> {
    match e {
        Error::InvalidCnpj(s) => "CNPJ inválido: "@ + s@,
        Error::InvalidPeriod(s) => "período inválido (esperado YYYY-MM): "@ + s@,
        Error::MissingData(s) => "arquivo de dado ausente: "@ + s@,
        Error::Http { url, status } => "HTTP "@ + decimal(status as nat) + ": "@ + url@,
    }
}

impl Error {
    /// The message that is shown for this error.
    pub fn message(&self) -> (r: String)
        ensures
            r@ == error_message(*self),
    {
        let mut r = String::new();
        match self {
            Error::InvalidCnpj(s) => {
                r.append("CNPJ inválido: ");
                r.append(s.as_str());
            },
            Error::InvalidPeriod(s) => {
                r.append("período inválido (esperado YYYY-MM): ");
                r.append(s.as_str());
            },
            Error::MissingData(s) => {
                r.append("arquivo de dado ausente: ");
                r.append(s.as_str());
            },
            Error::Http { url, status } => {
                r.append("HTTP ");
                push_decimal(&mut r, *status as u64);
                r.append(": ");
                r.append(url.as_str());
            },
        }
        r
    }
}

} // verus!

use vstd::prelude::*;

use crate::text::push_str;
use crate::text::string_from_chars;

verus! {

/// Errors of the domain primitives and of configuration loading.
#[derive(Debug, Clone, PartialEq, Eq)]
pub enum Error {
    Config(String),
    InvalidPeriod(String),
    InvalidCadence(String),
    InvalidTimezone(String),
    InvalidTenantSlug(String),
}

/// The human-readable message of an error.
pub open spec fn error_message(e: Error) -> Seq<char> {
    match e {
        Error::Config(s) => "config: "@ + s@,
        Error::InvalidPeriod(s) => "invalid period: "@ + s@,
        Error::InvalidCadence(s) => "invalid cadence: "@ + s@,
        Error::InvalidTimezone(s) => "invalid timezone: "@ + s@,
        Error::InvalidTenantSlug(s) => "invalid tenant slug: "@ + s@,
    }
}

impl Error {
    /// The message shown to users (what `Display` printed).
    pub fn to_string(&self) -> (r: String)
        ensures
            r@ == error_message(*self),
    {
        let mut v: Vec<char> = Vec::new();
        match self {
            Error::Config(s) => {
                push_str(&mut v, "config: ");
                push_str(&mut v, s.as_str());
            },
            Error::InvalidPeriod(s) => {
                push_str(&mut v, "invalid period: ");
                push_str(&mut v, s.as_str());
            },
            Error::InvalidCadence(s) => {
                push_str(&mut v, "invalid cadence: ");
                push_str(&mut v, s.as_str());
            },
            Error::InvalidTimezone(s) => {
                push_str(&mut v, "invalid timezone: ");
                push_str(&mut v, s.as_str());
            },
            Error::InvalidTenantSlug(s) => {
                push_str(&mut v, "invalid tenant slug: ");
                push_str(&mut v, s.as_str());
            },
        }
        string_from_chars(&v)
    }
}

} // verus!

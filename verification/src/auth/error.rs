use vstd::prelude::*;

use crate::text::{push_str, string_from_chars};

verus! {

/// Errors of sign-in and session handling. A transport failure is carried
/// as its message.
#[derive(Debug, Clone, PartialEq, Eq)]
pub enum Error {
    InvalidToken(String),
    NotInvited,
    OAuth(String),
    Network(String),
    InvalidSession(String),
    PasswordHash(String),
    PasswordMismatch,
}

/// The human-readable message of an error.
pub open spec fn error_message(e: Error) -> Seq<char> {
    match e {
        Error::InvalidToken(s) => "invalid id token: "@ + s@,
        Error::NotInvited => "not invited"@,
        Error::OAuth(s) => "oauth: "@ + s@,
        Error::Network(s) => "network: "@ + s@,
        Error::InvalidSession(s) => "invalid session token: "@ + s@,
        Error::PasswordHash(s) => "password hash: "@ + s@,
        Error::PasswordMismatch => "invalid password"@,
    }
}

impl Error {
    /// The message shown to users.
    pub fn to_string(&self) -> (r: String)
        ensures
            r@ == error_message(*self),
    {
        let mut v: Vec<char> = Vec::new();
        match self {
            Error::InvalidToken(s) => {
                push_str(&mut v, "invalid id token: ");
                push_str(&mut v, s.as_str());
            },
            Error::NotInvited => push_str(&mut v, "not invited"),
            Error::OAuth(s) => {
                push_str(&mut v, "oauth: ");
                push_str(&mut v, s.as_str());
            },
            Error::Network(s) => {
                push_str(&mut v, "network: ");
                push_str(&mut v, s.as_str());
            },
            Error::InvalidSession(s) => {
                push_str(&mut v, "invalid session token: ");
                push_str(&mut v, s.as_str());
            },
            Error::PasswordHash(s) => {
                push_str(&mut v, "password hash: ");
                push_str(&mut v, s.as_str());
            },
            Error::PasswordMismatch => push_str(&mut v, "invalid password"),
        }
        string_from_chars(&v)
    }
}

} // verus!

use vstd::prelude::*;

use crate::text::{push_str, string_from_chars};

verus! {

/// Errors of the proof store.
#[derive(Debug, Clone, PartialEq, Eq)]
pub enum Error {
    S3(String),
    NotFound,
}

pub open spec fn error_message(e: Error) -> Seq<char> {
    match e {
        Error::S3(m) => "s3: "@ + m@,
        Error::NotFound => "not found"@,
    }
}

impl Error {
    pub fn to_string(&self) -> (r: String)
        ensures
            r@ == error_message(*self),
    {
        let mut v: Vec<char> = Vec::new();
        match self {
            Error::S3(m) => {
                push_str(&mut v, "s3: ");
                push_str(&mut v, m.as_str());
            },
            Error::NotFound => {
                push_str(&mut v, "not found");
            },
        }
        string_from_chars(&v)
    }
}

} // verus!

//! Errors of the library.
use vstd::prelude::*;

use crate::chars::{chars_of, push_str, string_of};

verus! {

/// Kinds of failure: transport, provider API, file system, structured data, local parsing.
#[derive(Debug)]
pub enum JlcError {
    RequestError(String),
    ApiError(String),
    IoError(String),
    JsonError(String),
    ParseError(String),
}

pub open spec fn error_text(e: JlcError) -> Seq<char> {
    match e {
        JlcError::RequestError(m) => "HTTP request failed: "@ + m@,
        JlcError::ApiError(m) => "API returned error: "@ + m@,
        JlcError::IoError(m) => "IO error: "@ + m@,
        JlcError::JsonError(m) => "JSON parse error: "@ + m@,
        JlcError::ParseError(m) => "Parse error: "@ + m@,
    }
}

impl JlcError {
    /// The human-readable message of the error.
    pub fn message(&self) -> (r: String)
        ensures
            r@ == error_text(*self),
    {
        let (head, m) = match self {
            JlcError::RequestError(m) => ("HTTP request failed: ", m),
            JlcError::ApiError(m) => ("API returned error: ", m),
            JlcError::IoError(m) => ("IO error: ", m),
            JlcError::JsonError(m) => ("JSON parse error: ", m),
            JlcError::ParseError(m) => ("Parse error: ", m),
        };
        let mut out = chars_of(head);
        push_str(&mut out, m.as_str());
        string_of(&out)
    }
}

} // verus!

//! Error taxonomy of the fuzzer: configuration errors surfaced before any
//! request is sent, per-candidate header substitution errors, and transport
//! failures reported by the HTTP layer.

use vstd::prelude::*;

verus! {

/// Message of a transport-level failure, as reported by the HTTP client.
#[derive(Clone, Debug, PartialEq, Eq)]
pub struct HttpError(pub String);

/// Everything that can abort a run or reject a configuration.
#[derive(Clone, Debug, PartialEq, Eq)]
pub enum FuzzError {
    /// A free-form message.
    Custom(String),
    /// The placeholder keyword appears nowhere in URL, body or headers.
    FuzzKeywordNotFound,
    /// The wordlist source could not be read.
    Io(String),
    /// A transport-level failure (connection refused, DNS failure, ...).
    Http(HttpError),
    /// A substituted header name is not a valid HTTP header name.
    HeaderNameInvalid(String),
    /// A substituted header value is not a valid HTTP header value.
    HeaderValueInvalid(String),
    /// A content-length range whose bounds are not two numbers in
    /// strictly increasing order.
    InvalidRange,
    /// A concurrent unit of work could not be reconciled.
    TaskFailed(String),
}

impl FuzzError {
    /// The text that `message` renders for this error.
    pub open spec fn text_spec(self) -> Seq<char> {
        match self {
            FuzzError::Custom(s) => s@,
            FuzzError::FuzzKeywordNotFound => "no FUZZ keyword found"@,
            FuzzError::Io(s) => "io error: "@ + s@,
            FuzzError::Http(e) => "http error: "@ + e.0@,
            FuzzError::HeaderNameInvalid(s) => "invalid header name: "@ + s@,
            FuzzError::HeaderValueInvalid(s) => "invalid header value: "@ + s@,
            FuzzError::InvalidRange => "invalid content length range"@,
            FuzzError::TaskFailed(s) => "task failed: "@ + s@,
        }
    }

    /// A printable description of the error, with enough context (word,
    /// URL, underlying cause) to be actionable from the output stream.
    pub fn message(&self) -> (r: String)
        ensures
            r@ == self.text_spec(),
    {
        match self {
            FuzzError::Custom(s) => s.clone(),
            FuzzError::FuzzKeywordNotFound => "no FUZZ keyword found".to_owned(),
            FuzzError::Io(s) => {
                let mut m = "io error: ".to_owned();
                m.append(s.as_str());
                m
            },
            FuzzError::Http(e) => {
                let mut m = "http error: ".to_owned();
                m.append(e.0.as_str());
                m
            },
            FuzzError::HeaderNameInvalid(s) => {
                let mut m = "invalid header name: ".to_owned();
                m.append(s.as_str());
                m
            },
            FuzzError::HeaderValueInvalid(s) => {
                let mut m = "invalid header value: ".to_owned();
                m.append(s.as_str());
                m
            },
            FuzzError::InvalidRange => "invalid content length range".to_owned(),
            FuzzError::TaskFailed(s) => {
                let mut m = "task failed: ".to_owned();
                m.append(s.as_str());
                m
            },
        }
    }
}

} // verus!

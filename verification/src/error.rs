//! Error taxonomy of the decoder and the resolver.

use vstd::prelude::*;

use crate::text::a_label;
use crate::text::a_label_chars;

verus! {

/// A failure while turning a wire record into a domain value.
///
/// Decoding is all-or-nothing: the first offending token is reported and no
/// partial sequence is produced.
#[derive(Debug, Clone, PartialEq, Eq)]
pub enum DecodeError {
    /// A segment of the comma-joined terms field is not a valid integer.
    InvalidTerm(String),
    /// A segment of the comma-joined keyword field is not in the vocabulary.
    UnknownKeyword(String),
}

/// A failure of a single identifier lookup.
#[derive(Debug, Clone, PartialEq, Eq)]
pub enum FetchError {
    /// The network round trip failed (connection, timeout, non-success status).
    Transport(String),
    /// The response body was not valid JSON (`None`), or a wire record in it
    /// failed schema-level decoding (`Some`).
    Parse(Option<DecodeError>),
    /// The service answered with an empty result set for this identifier.
    NotFound(u64),
}

impl FetchError {
    /// The text of [`FetchError::message`].
    pub open spec fn message_chars(self) -> Seq<char> {
        match self {
            FetchError::Transport(m) => "HTTP error: "@ + m@,
            FetchError::Parse(_) => "JSON parse error"@,
            FetchError::NotFound(id) => "sequence "@ + a_label_chars(id as int) + " not found"@,
        }
    }

    /// A human-readable description of this failure.
    pub fn message(&self) -> (r: String)
        ensures
            r@ == self.message_chars(),
    {
        let mut out = String::new();
        match self {
            FetchError::Transport(m) => {
                out.append("HTTP error: ");
                out.append(m.as_str());
            },
            FetchError::Parse(_) => {
                out.append("JSON parse error");
            },
            FetchError::NotFound(id) => {
                out.append("sequence ");
                let label = a_label(*id);
                out.append(label.as_str());
                out.append(" not found");
            },
        }
        out
    }
}

} // verus!

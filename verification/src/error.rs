//! The library's error type.

use vstd::prelude::*;

use crate::text::push_all;

verus! {

/// Everything that can go wrong in the library. The storage, I/O,
/// serialisation and array errors carry the message of the error that the
/// outside layer reported.
#[derive(Debug)]
pub enum MemoriError {
    InvalidInput(String),
    Storage(String),
    Embedding(String),
    Io(String),
    Serde(String),
    Arrow(String),
}

/// `e` is an `InvalidInput` error whose message is `text`.
pub open spec fn is_invalid_input(e: MemoriError, text: Seq<char>) -> bool {
    e matches MemoriError::InvalidInput(m) && m@ == text
}

/// An `InvalidInput` error with the given message.
pub fn invalid_input(text: &str) -> (e: MemoriError)
    ensures
        is_invalid_input(e, text@),
{
    MemoriError::InvalidInput(text.to_owned())
}

impl MemoriError {
    /// The human-readable message, as the error's `Display` writes it.
    pub open spec fn message_text(&self) -> Seq<char> {
        match self {
            MemoriError::InvalidInput(m) => "invalid input: "@ + m@,
            MemoriError::Storage(m) => "storage error: "@ + m@,
            MemoriError::Embedding(m) => "embedding error: "@ + m@,
            MemoriError::Io(m) => "IO error: "@ + m@,
            MemoriError::Serde(m) => "serialization error: "@ + m@,
            MemoriError::Arrow(m) => "arrow error: "@ + m@,
        }
    }

    /// The human-readable message of the error.
    pub fn message(&self) -> (s: String)
        ensures
            s@ == self.message_text(),
    {
        let (prefix, m) = match self {
            MemoriError::InvalidInput(m) => ("invalid input: ", m),
            MemoriError::Storage(m) => ("storage error: ", m),
            MemoriError::Embedding(m) => ("embedding error: ", m),
            MemoriError::Io(m) => ("IO error: ", m),
            MemoriError::Serde(m) => ("serialization error: ", m),
            MemoriError::Arrow(m) => ("arrow error: ", m),
        };
        let mut s = prefix.to_owned();
        push_all(&mut s, m.as_str());
        s
    }
}

} // verus!

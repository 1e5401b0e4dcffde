//! The two error kinds a reader can report: a byte sequence that could
//! not be decoded to text, and a malformed or unexpected header record.

use vstd::prelude::*;

verus! {

/// Error returned by every fallible operation of the reader.
///
/// Both variants carry the offending text, so a caller can pinpoint the
/// corrupt part of the file without access to the reader internals.
#[derive(Debug)]
pub enum XPTError {
    /// Text decoding failed, or a numeric cell held an impossible encoding.
    DecodeError(String),
    /// An expected header card was missing or malformed.
    ParseError(String),
}

impl XPTError {
    /// The carried message, for display.
    pub fn message(&self) -> (r: &String)
        ensures
            r@ == self.text(),
    {
        match self {
            XPTError::DecodeError(s) => s,
            XPTError::ParseError(s) => s,
        }
    }

    /// The carried message as a sequence of characters.
    pub open spec fn text(&self) -> Seq<char> {
        match self {
            XPTError::DecodeError(s) => s@,
            XPTError::ParseError(s) => s@,
        }
    }
}

} // verus!

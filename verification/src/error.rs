//! Error types raised by validated construction and by the grammar.

use vstd::prelude::*;

verus! {

/// Reasons a candidate attribute name is rejected by validated construction.
#[derive(Clone, Copy, Debug, PartialEq, Eq, Structural)]
pub enum InvalidNameError {
    /// The string is empty or consists only of whitespace.
    Empty,
    /// The string contains a non-ASCII character.
    NonAscii,
    /// The first character is not an ASCII letter.
    NonAsciiAlphabeticFirstChar,
    /// The last character is not an ASCII letter or digit.
    NonAsciiAlphanumericLastChar,
}

/// Reasons a candidate attribute value is rejected by validated construction.
#[derive(Clone, Copy, Debug, PartialEq, Eq, Structural)]
pub enum InvalidValueError {
    /// The string contains a non-ASCII character.
    NonAscii,
    /// The string contains an ASCII control character.
    ContainsControlChar,
}

/// Positional grammar failures: the pattern that failed to match at the
/// current position. These are local and non-fatal; the caller decides how
/// to resynchronize.
#[derive(Clone, Copy, Debug, PartialEq, Eq, Structural)]
pub enum ParseError {
    /// No attribute name of the required shape starts at the current position.
    ExpectedName,
    /// The name token is not immediately followed by a colon.
    ExpectedColon,
    /// A line terminator is required but missing.
    ExpectedNewline,
    /// A server message must start with a percent sign.
    ExpectedCommentMark,
}

} // verus!

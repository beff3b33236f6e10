//! The parser's error type.

use vstd::prelude::*;
use vstd::string::StringExecFns;

verus! {

/// A syntactic error: the first grammar violation the parser met.
#[derive(Debug, PartialEq, Eq, Structural, Clone, Copy)]
pub enum ParseError {
    /// A token that cannot open a factor, or one left over after the
    /// expression ended.
    UnexpectedToken,
    /// The token stream ended before the grammar was satisfied.
    UnexpectedEndOfInput,
    /// A grouping or a call missing its closing parenthesis.
    ExpectedRightParen,
    /// A function name not followed by an opening parenthesis.
    ExpectedLeftParen,
    /// A two-argument call missing the comma between its arguments.
    ExpectedComma,
}

impl ParseError {
    /// The error's description.
    pub open spec fn spec_message(self) -> Seq<char> {
        match self {
            ParseError::UnexpectedToken => "Unexpected token"@,
            ParseError::UnexpectedEndOfInput => "Unexpected end of input"@,
            ParseError::ExpectedRightParen => "Expected right parenthesis"@,
            ParseError::ExpectedLeftParen => "Expected left parenthesis"@,
            ParseError::ExpectedComma => "Expected comma"@,
        }
    }

    /// Renders the error as readable text.
    pub fn message(&self) -> (r: String)
        ensures
            r@ == self.spec_message(),
    {
        match self {
            ParseError::UnexpectedToken => String::from_str("Unexpected token"),
            ParseError::UnexpectedEndOfInput => String::from_str("Unexpected end of input"),
            ParseError::ExpectedRightParen => String::from_str("Expected right parenthesis"),
            ParseError::ExpectedLeftParen => String::from_str("Expected left parenthesis"),
            ParseError::ExpectedComma => String::from_str("Expected comma"),
        }
    }
}

} // verus!

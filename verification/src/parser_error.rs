//! The syntactic error record: a descriptive message with the source position
//! of the token that failed to parse.

use vstd::prelude::*;

verus! {

/// One parse error. `line` and `column` are taken from the lookahead token at
/// the point of failure, or are both zero when the input was exhausted.
#[derive(Debug, Clone)]
pub struct ParseError {
    pub message: String,
    pub line: u32,
    pub column: u32,
}

/// The mathematical value of a [`ParseError`].
#[verifier::ext_equal]
pub struct ParseErrorV {
    pub message: Seq<char>,
    pub line: nat,
    pub column: nat,
}

impl DeepView for ParseError {
    type V = ParseErrorV;

    open spec fn deep_view(&self) -> ParseErrorV {
        ParseErrorV {
            message: self.message@,
            line: self.line as nat,
            column: self.column as nat,
        }
    }
}

impl ParseError {
    /// Records `message` at the given position.
    pub fn new(message: &str, line: u32, column: u32) -> (e: Self)
        ensures
            e.message@ == message@,
            e.line == line,
            e.column == column,
    {
        ParseError { message: message.to_owned(), line, column }
    }
}

/// The result of one parsing step: a value, or the error that stopped it.
pub type ParseResult<T> = Result<T, ParseError>;

} // verus!

use vstd::prelude::*;

use crate::token::{Token, TokenView};

verus! {

/// Why the tokenizer stopped; each variant carries the character position
/// (counted in chars, from zero) at which the offending unit starts.
#[derive(Debug, Clone, Copy, PartialEq, Eq, Structural)]
pub enum LexError {
    /// A character that starts no token (a lone `!` included).
    UnexpectedChar { ch: char, pos: usize },
    /// A `"` with no closing `"` before the end of the input.
    UnterminatedString { pos: usize },
    /// A run of digits whose value does not fit in an `i64`.
    NumberTooLarge { pos: usize },
}

/// The construct or token that the parser required at the point of failure.
#[derive(Debug, Clone, Copy, PartialEq, Eq, Structural)]
pub enum Expected {
    LParen,
    RParen,
    LBrace,
    RBrace,
    FunctionName,
    ParameterName,
    Expression,
    LengthMethod,
    AssignmentTarget,
}

/// A parse failure: what was required, the token found instead, and its index
/// in the token sequence.
#[derive(Debug, PartialEq)]
pub struct ParseError {
    pub expected: Expected,
    pub found: Token,
    pub pos: usize,
}

pub struct ParseErrorView {
    pub expected: Expected,
    pub found: TokenView,
    pub pos: int,
}

impl View for ParseError {
    type V = ParseErrorView;

    open spec fn view(&self) -> ParseErrorView {
        ParseErrorView { expected: self.expected, found: self.found@, pos: self.pos as int }
    }
}

#[derive(Debug, PartialEq)]
pub enum CompileError {
    Lex(LexError),
    Parse(ParseError),
}

} // verus!

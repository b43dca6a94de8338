use vstd::prelude::*;

pub mod ast;
pub mod error;
pub mod grammar;
pub mod lexer;
pub mod parser;
pub mod textual;
pub mod token;

pub use ast::{BinOp, Expr, Function, Program, Statement};
pub use error::{CompileError, Expected, LexError, ParseError};
pub use lexer::lex;
pub use parser::Parser;
pub use token::Token;

verus! {

use crate::grammar::{program_at, tok_at};
use crate::lexer::{lemma_lex_single_eof, lexed};
use crate::token::{tokens_view, TokenView};

/// Tokenizes `source` and parses the tokens into a program. On success every
/// token but the final `EOF` has been consumed.
pub fn parse_source(source: &str) -> (r: Result<Program, CompileError>)
    ensures
        match lexed(source@) {
            Err(e) => r matches Err(CompileError::Lex(e2)) && e2 == e,
            Ok(ts) => match program_at(ts, 0) {
                Ok((prog, q)) => r is Ok && r->Ok_0@ == prog && q == ts.len() - 1,
                Err(pe) => r matches Err(CompileError::Parse(pe2)) && pe2@ == pe,
            },
        },
{
    let tokens = match lex(source) {
        Ok(ts) => ts,
        Err(e) => {
            return Err(e);
        },
    };
    proof {
        lemma_lex_single_eof(source@, 0);
    }
    let ghost ts = tokens_view(tokens@);
    let mut parser = Parser::new(tokens);
    match parser.parse_program() {
        Ok(prog) => {
            proof {
                let q = parser.position();
                assert(tok_at(ts, q) == TokenView::EOF);
                if q < ts.len() - 1 {
                    assert(ts[q] != TokenView::EOF);
                }
                if q == ts.len() {
                    assert(tok_at(ts, q - 1) == ts[ts.len() - 1]);
                }
            }
            Ok(prog)
        },
        Err(e) => Err(e),
    }
}

} // verus!

//! The parser: a one-token lookahead over the lexer and the grammar on top of it.

pub mod ast;
pub mod error;
pub mod grammar;
pub mod parser;
pub mod seq;

use crate::lexer::Lexer;
use error::{ParseFailure, ParsingError};
use seq::{reports, yields};
use vstd::prelude::*;

verus! {

/// Parses the text that the lexer has before it.
pub fn build_ast<'c>(lexer: Lexer<'c>) -> (result: Result<ast::AST<'c>, ParsingError>)
    requires
        lexer.wf(),
        !grammar::program(lexer.remaining()).aborts(),
    ensures
        reports(result, grammar::program(lexer.remaining()).result),
{
    parser::Parser::new(lexer).parse()
}

/// Parses the text that the lexer has before it, and says so where the
/// parse ends on a character that begins no token or on a literal without
/// a value.
pub fn try_build_ast<'c>(lexer: Lexer<'c>) -> (result: Result<ast::AST<'c>, ParseFailure>)
    requires
        lexer.wf(),
    ensures
        yields(result, grammar::program(lexer.remaining()).result),
{
    parser::Parser::new(lexer).try_parse()
}

} // verus!

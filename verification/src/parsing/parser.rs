//! The recursive-descent parser: one function for each production of the
//! grammar, one token of lookahead, and no way back; the first failure ends
//! the parse.

use super::ast::stmt::{FunctionCall, Statement, VariableDeclaration};
use super::ast::{lemma_views_push, views, FunctionArg, FunctionDeclaration, AST};
use super::error::{ParseFailure, ParsingError};
use super::grammar;
use super::grammar::{Cursor, Step};
use super::seq::{reports, yields, TokenSeq};
use crate::lexer::{Lexer, TokenKind};
use vstd::pervasive::unreached;
use vstd::prelude::*;

verus! {

/// The parser of one text. Its state is where reading stands.
pub struct Parser<'c> {
    seq: TokenSeq<'c>,
}

impl<'c> View for Parser<'c> {
    type V = Cursor;

    closed spec fn view(&self) -> Cursor {
        self.seq@
    }
}

impl<'c> Parser<'c> {
    /// The lookahead layer is well formed.
    pub closed spec fn wf(&self) -> bool {
        self.seq.wf()
    }

    /// A parser with the text of the lexer before it.
    pub fn new(lexer: Lexer<'c>) -> (parser: Parser<'c>)
        requires
            lexer.wf(),
        ensures
            parser.wf(),
            parser@ == (Cursor { stream: lexer.remaining(), peeked: false }),
    {
        Parser { seq: TokenSeq::new(lexer) }
    }

    fn parse_variable(&mut self) -> (result: Result<VariableDeclaration<'c>, ParseFailure>)
        requires
            old(self).wf(),
        ensures
            final(self).wf(),
            final(self)@ == grammar::variable(old(self)@.stream).cursor,
            yields(result, grammar::variable(old(self)@.stream).result),
    {
        let variable_type = self.seq.try_expect_type()?;
        let variable_name = self.seq.try_expect_ident()?;
        self.seq.try_expect_token(TokenKind::Assign)?;
        let literal = self.seq.try_expect_literal()?;
        self.seq.try_expect_end()?;
        Ok(VariableDeclaration::new(variable_type, variable_name, literal))
    }

    fn parse_function_call(&mut self) -> (result: Result<FunctionCall<'c>, ParseFailure>)
        requires
            old(self).wf(),
        ensures
            final(self).wf(),
            final(self)@ == grammar::call(old(self)@.stream).cursor,
            yields(result, grammar::call(old(self)@.stream).result),
    {
        let ghost whole = grammar::call(self@.stream);
        let function_name = self.seq.try_expect_ident()?;

        self.seq.try_expect_token(TokenKind::ParenOpen)?;
        let mut args = Vec::new();
        let mut first = true;
        assert(views(args@) =~= Seq::empty());
        loop
            invariant_except_break
                whole == grammar::call_end(
                    function_name@,
                    grammar::call_arguments(self@.stream, first, views(args@)),
                ),
            invariant
                self.wf(),
                whole == grammar::call(old(self)@.stream),
            ensures
                whole == grammar::call_end(
                    function_name@,
                    Step { result: Ok(views(args@)), cursor: self@ },
                ),
            decreases self@.stream.len(),
        {
            let ghost before = self@.stream;
            proof {
                grammar::lemma_skip_blank_len(before);
                grammar::lemma_advance_len(grammar::skip_blank(before));
            }
            let kind = match self.seq.try_solid_token() {
                Ok(token) => token.kind(),
                Err(error) => {
                    return Err(ParseFailure::Lex(error));
                },
            };
            match kind {
                // )
                TokenKind::ParenClose => {
                    self.seq.go_next();
                    break ;
                },
                // ...,
                TokenKind::Sep if !first => self.seq.go_next(),
                // (...
                _ if first => {},
                // ... ...
                _ => {
                    return Err(
                        ParseFailure::Parsing(
                            ParsingError::new(kind, &[TokenKind::Sep, TokenKind::ParenClose]),
                        ),
                    );
                },
            }
            proof {
                grammar::lemma_expect_literal_len(self@.stream);
            }
            let literal = self.seq.try_expect_literal()?;
            proof {
                lemma_views_push(args@, literal);
            }
            args.push(literal);
            first = false;
        }

        self.seq.try_expect_end()?;

        Ok(FunctionCall::new(function_name, args))
    }

    fn parse_statement(&mut self) -> (result: Result<Statement<'c>, ParseFailure>)
        requires
            old(self).wf(),
        ensures
            final(self).wf(),
            final(self)@ == grammar::statement(old(self)@.stream).cursor,
            yields(result, grammar::statement(old(self)@.stream).result),
    {
        let kind = match self.seq.try_solid_token() {
            Ok(token) => token.kind(),
            Err(error) => {
                return Err(ParseFailure::Lex(error));
            },
        };
        let stmt = match kind {
            TokenKind::Ident => Statement::function_call(self.parse_function_call()?),
            _ => Statement::var_decl(self.parse_variable()?),
        };
        Ok(stmt)
    }

    fn parse_function(&mut self) -> (result: Result<FunctionDeclaration<'c>, ParseFailure>)
        requires
            old(self).wf(),
        ensures
            final(self).wf(),
            final(self)@ == grammar::function(old(self)@.stream).cursor,
            yields(result, grammar::function(old(self)@.stream).result),
    {
        let ghost whole = grammar::function(self@.stream);
        let return_type = self.seq.try_expect_type_or_void()?;
        let function_name = self.seq.try_expect_ident()?;

        // parse args
        self.seq.try_expect_token(TokenKind::ParenOpen)?;
        let mut args = Vec::<FunctionArg>::new();
        let mut first = true;
        assert(views(args@) =~= Seq::empty());
        loop
            invariant_except_break
                whole == grammar::function_rest(
                    return_type@,
                    function_name@,
                    grammar::arguments(self@.stream, first, views(args@)),
                ),
            invariant
                self.wf(),
                whole == grammar::function(old(self)@.stream),
            ensures
                whole == grammar::function_body(
                    return_type@,
                    function_name@,
                    views(args@),
                    self@.stream,
                ),
            decreases self@.stream.len(),
        {
            let ghost before = self@.stream;
            proof {
                grammar::lemma_skip_blank_len(before);
                grammar::lemma_advance_len(grammar::skip_blank(before));
            }
            let kind = match self.seq.try_solid_token() {
                Ok(token) => token.kind(),
                Err(error) => {
                    return Err(ParseFailure::Lex(error));
                },
            };
            match kind {
                TokenKind::ParenClose => {
                    self.seq.go_next();
                    break ;
                },
                TokenKind::Sep if !first => self.seq.go_next(),
                _ if first => {},
                _ => {
                    return Err(
                        ParseFailure::Parsing(
                            ParsingError::new(kind, &[TokenKind::Sep, TokenKind::ParenClose]),
                        ),
                    );
                },
            }
            proof {
                grammar::lemma_expect_type_len(self@.stream);
            }
            let arg_type = self.seq.try_expect_type()?;
            proof {
                grammar::lemma_expect_ident_len(self@.stream);
            }
            let arg_name = self.seq.try_expect_ident()?;
            let arg = FunctionArg::new(arg_type, arg_name);
            proof {
                lemma_views_push(args@, arg);
            }
            args.push(arg);
            first = false;
        }

        // parse body
        self.seq.try_expect_token(TokenKind::BraceOpen)?;
        let mut stmts = Vec::new();
        assert(views(stmts@) =~= Seq::empty());
        loop
            invariant_except_break
                whole == grammar::function_end(
                    return_type@,
                    function_name@,
                    views(args@),
                    grammar::block(self@.stream, views(stmts@)),
                ),
            invariant
                self.wf(),
                whole == grammar::function(old(self)@.stream),
            ensures
                whole == grammar::function_end(
                    return_type@,
                    function_name@,
                    views(args@),
                    Step { result: Ok(views(stmts@)), cursor: self@ },
                ),
            decreases self@.stream.len(),
        {
            let ghost before = self@.stream;
            proof {
                grammar::lemma_skip_blank_len(before);
                grammar::lemma_statement_len(grammar::skip_blank(before));
            }
            let token = match self.seq.try_solid_token() {
                Ok(token) => token,
                Err(error) => {
                    return Err(ParseFailure::Lex(error));
                },
            };
            if token.kind() == TokenKind::BraceClose {
                self.seq.go_next();
                break ;
            }
            let stmt = self.parse_statement()?;
            proof {
                lemma_views_push(stmts@, stmt);
            }
            stmts.push(stmt);
        }

        self.seq.try_expect_end()?;

        return Ok(FunctionDeclaration::new(return_type, function_name, args, stmts));
    }

    /// Reads the whole text: the declarations in the order of the source,
    /// or the first failure.
    pub fn try_parse(&mut self) -> (result: Result<AST<'c>, ParseFailure>)
        requires
            old(self).wf(),
        ensures
            final(self).wf(),
            final(self)@ == grammar::program(old(self)@.stream).cursor,
            yields(result, grammar::program(old(self)@.stream).result),
    {
        let mut declarations = Vec::new();
        assert(views(declarations@) =~= Seq::empty());
        loop
            invariant
                self.wf(),
                grammar::program(old(self)@.stream) == grammar::declarations(
                    self@.stream,
                    views(declarations@),
                ),
            decreases self@.stream.len(),
        {
            let ghost before = self@.stream;
            proof {
                grammar::lemma_skip_blank_len(before);
                grammar::lemma_function_len(grammar::skip_blank(before));
            }
            let token = match self.seq.try_solid_token() {
                Ok(token) => token,
                Err(error) => {
                    return Err(ParseFailure::Lex(error));
                },
            };
            if token.kind() == TokenKind::Eof {
                return Ok(AST::new(declarations));
            }
            let declaration = self.parse_function()?;
            proof {
                lemma_views_push(declarations@, declaration);
            }
            declarations.push(declaration);
        }
    }

    /// Reads the whole text: the declarations in the order of the source,
    /// or the diagnostic of the first token that the grammar does not
    /// accept.
    pub fn parse(&mut self) -> (result: Result<AST<'c>, ParsingError>)
        requires
            old(self).wf(),
            !grammar::program(old(self)@.stream).aborts(),
        ensures
            final(self).wf(),
            final(self)@ == grammar::program(old(self)@.stream).cursor,
            reports(result, grammar::program(old(self)@.stream).result),
    {
        match self.try_parse() {
            Ok(ast) => Ok(ast),
            Err(ParseFailure::Parsing(error)) => Err(error),
            Err(_) => unreached(),
        }
    }
}

} // verus!

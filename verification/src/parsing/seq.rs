//! One token of lookahead over the lexer, and the primitives that the
//! grammar is written in: each takes the next token and returns a fragment
//! of the tree, or the diagnostic of what stood in its place.
//!
//! Two things can end reading that are no diagnostics: a character that
//! begins no token, and a literal without a value. The primitives are not
//! to be called where they would come upon one; each has a `try_` form that
//! may be called anywhere and reports it.

use super::ast::{Ident, Literal, Type, TypeOrVoid};
use super::error::{Failure, ParseFailure, ParsingError};
use super::grammar;
use super::grammar::{advance, lemma_skip_blank, skip_blank, solid, Cursor};
use crate::lexer::{head, lemma_head, Lexer, Token, TokenKind, TokenMatcherNotFound};
use crate::text::parse_decimal;
use vstd::prelude::*;
use vstd::string::*;

verus! {

/// The result of a primitive is what the grammar yields.
pub open spec fn reports<T: View>(
    result: Result<T, ParsingError>,
    yielded: Result<T::V, Failure>,
) -> bool {
    match result {
        Ok(value) => yielded == Ok::<T::V, Failure>(value@),
        Err(error) => yielded == Err::<T::V, Failure>(Failure::Parsing(error@)),
    }
}

/// The result of the `try_` form of a primitive is what the grammar yields.
pub open spec fn yields<T: View>(
    result: Result<T, ParseFailure>,
    yielded: Result<T::V, Failure>,
) -> bool {
    match result {
        Ok(value) => yielded == Ok::<T::V, Failure>(value@),
        Err(failure) => yielded == Err::<T::V, Failure>(failure@),
    }
}

fn token_to_type<'c>(token: Token<'c>) -> (found: Option<Type<'c>>)
    ensures
        match found {
            Some(found) => grammar::type_of(token@) == Some(found@),
            None => grammar::type_of(token@) is None,
        },
{
    match token.kind() {
        TokenKind::KeywordInt => Some(Type::Int),
        TokenKind::Ident => Some(Type::Custom { name: token.string() }),
        _ => None,
    }
}

/// The text without its first and its last character.
fn strip_ends<'c>(string: &'c str) -> (inner: Option<&'c str>)
    ensures
        match inner {
            Some(inner) => string@.len() >= 2 && inner@ == string@.subrange(
                1,
                string@.len() - 1,
            ),
            None => string@.len() < 2,
        },
{
    let count = string.unicode_len();
    if count >= 2 {
        Some(string.substring_char(1, count - 1))
    } else {
        None
    }
}

/// The value of a literal token.
fn token_to_literal<'c>(token: Token<'c>) -> (literal: Option<Literal<'c>>)
    ensures
        match literal {
            Some(literal) => grammar::literal_of(token@) == Some(literal@),
            None => grammar::literal_of(token@) is None,
        },
{
    match token.kind() {
        TokenKind::IntegerLiteral => match parse_decimal(token.string()) {
            Some(value) => Some(Literal::integer(value)),
            None => None,
        },
        TokenKind::StringLiteral => match strip_ends(token.string()) {
            Some(value) => Some(Literal::string(value)),
            None => None,
        },
        _ => None,
    }
}

/// The lexer and at most one token that was taken from it and not yet
/// consumed.
pub struct TokenSeq<'c> {
    lexer: Lexer<'c>,
    buf: Option<Token<'c>>,
}

impl<'c> View for TokenSeq<'c> {
    type V = Cursor;

    closed spec fn view(&self) -> Cursor {
        Cursor {
            stream: match self.buf {
                Some(token) => token@.text + self.lexer.remaining(),
                None => self.lexer.remaining(),
            },
            peeked: self.buf is Some,
        }
    }
}

impl<'c> TokenSeq<'c> {
    /// The token that is held back is the head token of the stream.
    pub closed spec fn wf(&self) -> bool {
        &&& self.lexer.wf()
        &&& self.buf matches Some(token) ==> head(self@.stream) == Some(token@)
    }

    /// A lookahead over the lexer, with no token held back.
    pub fn new(lexer: Lexer<'c>) -> (seq: TokenSeq<'c>)
        requires
            lexer.wf(),
        ensures
            seq.wf(),
            seq@ == (Cursor { stream: lexer.remaining(), peeked: false }),
    {
        TokenSeq { lexer, buf: None }
    }

    /// The token at the head of the stream, which stays there. Fails, and
    /// changes nothing, where the stream begins with a character that
    /// begins no token.
    pub fn try_current_token(&mut self) -> (result: Result<Token<'c>, TokenMatcherNotFound>)
        requires
            old(self).wf(),
        ensures
            final(self).wf(),
            match head(old(self)@.stream) {
                Some(t) => {
                    &&& result matches Ok(token) && token@ == t
                    &&& final(self)@ == (Cursor { stream: old(self)@.stream, peeked: true })
                },
                None => result is Err && final(self)@ == old(self)@ && !final(self)@.peeked,
            },
    {
        match self.buf {
            Some(t) => Ok(t),
            None => {
                let next = self.lexer.next()?;
                self.buf = Some(next);
                proof {
                    let stream = old(self)@.stream;
                    lemma_head(stream);
                    assert(next@.text + stream.skip(next@.text.len() as int) =~= stream);
                }
                Ok(next)
            },
        }
    }

    /// The token at the head of the stream, which stays there.
    pub fn current_token(&mut self) -> (token: Token<'c>)
        requires
            old(self).wf(),
            head(old(self)@.stream) is Some,
        ensures
            final(self).wf(),
            head(old(self)@.stream) == Some(token@),
            final(self)@ == (Cursor { stream: old(self)@.stream, peeked: true }),
    {
        self.try_current_token().expect("failed to match token")
    }

    /// Consumes the token that is held back, if one is.
    pub fn go_next(&mut self)
        requires
            old(self).wf(),
        ensures
            final(self).wf(),
            final(self)@ == (Cursor {
                stream: if old(self)@.peeked {
                    advance(old(self)@.stream)
                } else {
                    old(self)@.stream
                },
                peeked: false,
            }),
    {
        proof {
            if let Some(token) = self.buf {
                assert((token@.text + self.lexer.remaining()).skip(token@.text.len() as int)
                    =~= self.lexer.remaining());
            }
        }
        self.buf = None;
    }

    /// Consumes the token at the head of the stream and returns it.
    pub fn next_token(&mut self) -> (token: Token<'c>)
        requires
            old(self).wf(),
            head(old(self)@.stream) is Some,
        ensures
            final(self).wf(),
            head(old(self)@.stream) == Some(token@),
            final(self)@ == (Cursor { stream: advance(old(self)@.stream), peeked: false }),
    {
        let token = self.current_token();
        self.go_next();
        token
    }

    /// Consumes the spaces and line breaks at the head of the stream and
    /// returns the token after them, which stays there. Fails where it comes
    /// upon a character that begins no token, with the stream at that
    /// character.
    pub fn try_solid_token(&mut self) -> (result: Result<Token<'c>, TokenMatcherNotFound>)
        requires
            old(self).wf(),
        ensures
            final(self).wf(),
            final(self)@.stream == skip_blank(old(self)@.stream),
            match solid(old(self)@.stream) {
                Some(t) => result matches Ok(token) && token@ == t && final(self)@.peeked,
                None => result is Err && !final(self)@.peeked,
            },
    {
        loop
            invariant
                self.wf(),
                skip_blank(self@.stream) == skip_blank(old(self)@.stream),
            decreases self@.stream.len(),
        {
            proof {
                lemma_head(self@.stream);
            }
            let token = self.try_current_token()?;
            if matches!(token.kind(), TokenKind::Spaces | TokenKind::LineBreak) {
                self.go_next();
                continue ;
            }
            return Ok(token);
        }
    }

    /// Consumes the spaces and line breaks at the head of the stream and
    /// returns the token after them, which stays there.
    pub fn solid_token(&mut self) -> (token: Token<'c>)
        requires
            old(self).wf(),
            solid(old(self)@.stream) is Some,
        ensures
            final(self).wf(),
            solid(old(self)@.stream) == Some(token@),
            final(self)@ == (Cursor { stream: skip_blank(old(self)@.stream), peeked: true }),
    {
        loop
            invariant
                self.wf(),
                skip_blank(self@.stream) == skip_blank(old(self)@.stream),
                solid(old(self)@.stream) is Some,
            decreases self@.stream.len(),
        {
            proof {
                lemma_head(self@.stream);
            }
            let token = self.current_token();
            if matches!(token.kind(), TokenKind::Spaces | TokenKind::LineBreak) {
                self.go_next();
                continue ;
            }
            return token;
        }
    }

    /// Consumes the stream up to and with its first token that is neither
    /// spaces nor a line break, and returns that token.
    pub fn next_solid_token(&mut self) -> (token: Token<'c>)
        requires
            old(self).wf(),
            solid(old(self)@.stream) is Some,
        ensures
            final(self).wf(),
            solid(old(self)@.stream) == Some(token@),
            final(self)@ == (Cursor {
                stream: advance(skip_blank(old(self)@.stream)),
                peeked: false,
            }),
    {
        let token = self.solid_token();
        self.go_next();
        token
    }

    /// Reads a type: `int`, or a name.
    pub fn expect_type(&mut self) -> (result: Result<Type<'c>, ParsingError>)
        requires
            old(self).wf(),
            !grammar::expect_type(old(self)@.stream).aborts(),
        ensures
            final(self).wf(),
            final(self)@ == grammar::expect_type(old(self)@.stream).cursor,
            reports(result, grammar::expect_type(old(self)@.stream).result),
    {
        let token = self.next_solid_token();
        match token_to_type(token) {
            Some(found) => Ok(found),
            None => Err(ParsingError::new(token.kind(), &[TokenKind::KeywordInt, TokenKind::Ident])),
        }
    }

    /// Reads a return type: a type, or `void`.
    pub fn expect_type_or_void(&mut self) -> (result: Result<TypeOrVoid<'c>, ParsingError>)
        requires
            old(self).wf(),
            !grammar::expect_type_or_void(old(self)@.stream).aborts(),
        ensures
            final(self).wf(),
            final(self)@ == grammar::expect_type_or_void(old(self)@.stream).cursor,
            reports(result, grammar::expect_type_or_void(old(self)@.stream).result),
    {
        let token = self.next_solid_token();
        match token_to_type(token) {
            Some(t) => Ok(TypeOrVoid::Type(t)),
            None => match token.kind() {
                TokenKind::KeywordVoid => Ok(TypeOrVoid::Void),
                _ => {
                    let expected = [
                        TokenKind::KeywordInt,
                        TokenKind::Ident,
                        TokenKind::KeywordVoid,
                    ];
                    assert(expected@ =~= grammar::type_tokens().push(TokenKind::KeywordVoid));
                    Err(ParsingError::new(token.kind(), &expected))
                },
            },
        }
    }

    /// Reads an identifier.
    pub fn expect_ident(&mut self) -> (result: Result<Ident<'c>, ParsingError>)
        requires
            old(self).wf(),
            !grammar::expect_ident(old(self)@.stream).aborts(),
        ensures
            final(self).wf(),
            final(self)@ == grammar::expect_ident(old(self)@.stream).cursor,
            reports(result, grammar::expect_ident(old(self)@.stream).result),
    {
        let token = self.next_solid_token();
        match token.kind() {
            TokenKind::Ident => Ok(Ident { name: token.string() }),
            kind => {
                let expected = [TokenKind::Ident];
                assert(expected@ =~= seq![TokenKind::Ident]);
                Err(ParsingError::new(kind, &expected))
            },
        }
    }

    /// Reads a token of exactly the given kind.
    pub fn expect_token(&mut self, kind: TokenKind) -> (result: Result<(), ParsingError>)
        requires
            old(self).wf(),
            !grammar::expect_token(old(self)@.stream, kind).aborts(),
        ensures
            final(self).wf(),
            final(self)@ == grammar::expect_token(old(self)@.stream, kind).cursor,
            reports(result, grammar::expect_token(old(self)@.stream, kind).result),
    {
        let token = self.next_solid_token();
        if kind == token.kind() {
            Ok(())
        } else {
            let expected = [kind];
            assert(expected@ =~= seq![kind]);
            Err(ParsingError::new(token.kind(), &expected))
        }
    }

    /// Reads a literal: the number that an integer literal writes, or the
    /// text of a string literal between its quotes.
    pub fn expect_literal(&mut self) -> (result: Result<Literal<'c>, ParsingError>)
        requires
            old(self).wf(),
            !grammar::expect_literal(old(self)@.stream).aborts(),
        ensures
            final(self).wf(),
            final(self)@ == grammar::expect_literal(old(self)@.stream).cursor,
            reports(result, grammar::expect_literal(old(self)@.stream).result),
    {
        let token = self.next_solid_token();
        match token.kind() {
            TokenKind::IntegerLiteral => {
                let value = parse_decimal(token.string()).expect("failed to parse integer literal");
                Ok(Literal::integer(value))
            },
            TokenKind::StringLiteral => {
                let value = strip_ends(token.string()).expect("failed to parse string literal");
                Ok(Literal::string(value))
            },
            kind => Err(
                ParsingError::new(kind, &[TokenKind::IntegerLiteral, TokenKind::StringLiteral]),
            ),
        }
    }

    /// Reads the end of a statement or of a declaration: a line break or
    /// the end of the input, at the head of the stream as it stands. Any
    /// other token stays in place.
    pub fn expect_end(&mut self) -> (result: Result<(), ParsingError>)
        requires
            old(self).wf(),
            !grammar::expect_end(old(self)@.stream).aborts(),
        ensures
            final(self).wf(),
            final(self)@ == grammar::expect_end(old(self)@.stream).cursor,
            reports(result, grammar::expect_end(old(self)@.stream).result),
    {
        match self.current_token().kind() {
            TokenKind::LineBreak => {},
            TokenKind::Eof => {},
            kind => {
                return Err(ParsingError::new(kind, &[TokenKind::LineBreak, TokenKind::Eof]));
            },
        }
        self.go_next();
        Ok(())
    }
    /// Reads a type where that can be done, and says where it cannot.
    pub fn try_expect_type(&mut self) -> (result: Result<Type<'c>, ParseFailure>)
        requires
            old(self).wf(),
        ensures
            final(self).wf(),
            final(self)@ == grammar::expect_type(old(self)@.stream).cursor,
            yields(result, grammar::expect_type(old(self)@.stream).result),
    {
        proof {
            lemma_skip_blank(self@.stream);
        }
        match self.try_solid_token() {
            Err(error) => Err(ParseFailure::Lex(error)),
            Ok(_) => match self.expect_type() {
                Ok(found) => Ok(found),
                Err(error) => Err(ParseFailure::Parsing(error)),
            },
        }
    }

    /// Reads a return type where that can be done, and says where it cannot.
    pub fn try_expect_type_or_void(&mut self) -> (result: Result<TypeOrVoid<'c>, ParseFailure>)
        requires
            old(self).wf(),
        ensures
            final(self).wf(),
            final(self)@ == grammar::expect_type_or_void(old(self)@.stream).cursor,
            yields(result, grammar::expect_type_or_void(old(self)@.stream).result),
    {
        proof {
            lemma_skip_blank(self@.stream);
        }
        match self.try_solid_token() {
            Err(error) => Err(ParseFailure::Lex(error)),
            Ok(_) => match self.expect_type_or_void() {
                Ok(found) => Ok(found),
                Err(error) => Err(ParseFailure::Parsing(error)),
            },
        }
    }

    /// Reads an identifier where that can be done, and says where it cannot.
    pub fn try_expect_ident(&mut self) -> (result: Result<Ident<'c>, ParseFailure>)
        requires
            old(self).wf(),
        ensures
            final(self).wf(),
            final(self)@ == grammar::expect_ident(old(self)@.stream).cursor,
            yields(result, grammar::expect_ident(old(self)@.stream).result),
    {
        proof {
            lemma_skip_blank(self@.stream);
        }
        match self.try_solid_token() {
            Err(error) => Err(ParseFailure::Lex(error)),
            Ok(_) => match self.expect_ident() {
                Ok(found) => Ok(found),
                Err(error) => Err(ParseFailure::Parsing(error)),
            },
        }
    }

    /// Reads a token of the given kind where that can be done, and says
    /// where it cannot.
    pub fn try_expect_token(&mut self, kind: TokenKind) -> (result: Result<(), ParseFailure>)
        requires
            old(self).wf(),
        ensures
            final(self).wf(),
            final(self)@ == grammar::expect_token(old(self)@.stream, kind).cursor,
            yields(result, grammar::expect_token(old(self)@.stream, kind).result),
    {
        proof {
            lemma_skip_blank(self@.stream);
        }
        match self.try_solid_token() {
            Err(error) => Err(ParseFailure::Lex(error)),
            Ok(_) => match self.expect_token(kind) {
                Ok(found) => Ok(found),
                Err(error) => Err(ParseFailure::Parsing(error)),
            },
        }
    }

    /// Reads a literal where that can be done, and says where it cannot. A
    /// literal without a value stays in place.
    pub fn try_expect_literal(&mut self) -> (result: Result<Literal<'c>, ParseFailure>)
        requires
            old(self).wf(),
        ensures
            final(self).wf(),
            final(self)@ == grammar::expect_literal(old(self)@.stream).cursor,
            yields(result, grammar::expect_literal(old(self)@.stream).result),
    {
        proof {
            lemma_skip_blank(self@.stream);
        }
        match self.try_solid_token() {
            Err(error) => Err(ParseFailure::Lex(error)),
            Ok(token) => {
                let kind = token.kind();
                let literal = kind == TokenKind::IntegerLiteral || kind == TokenKind::StringLiteral;
                if literal && token_to_literal(token).is_none() {
                    Err(ParseFailure::Literal(kind))
                } else {
                    match self.expect_literal() {
                        Ok(found) => Ok(found),
                        Err(error) => Err(ParseFailure::Parsing(error)),
                    }
                }
            },
        }
    }

    /// Reads the end of a statement where that can be done, and says where
    /// it cannot.
    pub fn try_expect_end(&mut self) -> (result: Result<(), ParseFailure>)
        requires
            old(self).wf(),
        ensures
            final(self).wf(),
            final(self)@ == grammar::expect_end(old(self)@.stream).cursor,
            yields(result, grammar::expect_end(old(self)@.stream).result),
    {
        match self.try_current_token() {
            Err(error) => Err(ParseFailure::Lex(error)),
            Ok(_) => match self.expect_end() {
                Ok(found) => Ok(found),
                Err(error) => Err(ParseFailure::Parsing(error)),
            },
        }
    }
}

} // verus!

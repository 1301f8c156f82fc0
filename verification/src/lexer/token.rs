//! Tokens: a kind from a closed set, and the span of source text it classifies.

use crate::text::{
    ascii_alphabetic, ascii_alphanumeric, ascii_digit, ends_with_quote, is_ascii_alphabetic,
    is_ascii_alphanumeric, is_ascii_digit, is_line_break, line_break, same_text,
};
use vstd::prelude::*;

verus! {

/// The closed set of token kinds.
#[derive(PartialEq, Eq, Clone, Copy, Debug, Structural)]
pub enum TokenKind {
    Spaces,
    LineBreak,
    KeywordVoid,
    KeywordInt,
    Ident,
    Assign,
    IntegerLiteral,
    StringLiteral,
    ParenOpen,
    ParenClose,
    BraceOpen,
    BraceClose,
    Sep,
    Eof,
}

/// The mathematical value of a token: its kind and the characters of its span.
pub struct Lexeme {
    pub kind: TokenKind,
    pub text: Seq<char>,
}

/// A classified, contiguous slice of the source text. The text is borrowed
/// from the source buffer, never copied.
#[derive(PartialEq, Eq, Clone, Copy, Debug)]
pub struct Token<'c> {
    kind: TokenKind,
    string: &'c str,
}

impl<'c> View for Token<'c> {
    type V = Lexeme;

    closed spec fn view(&self) -> Lexeme {
        Lexeme { kind: self.kind, text: self.string@ }
    }
}

impl Lexeme {
    /// The token that marks the end of the input: kind `Eof`, empty text.
    pub open spec fn eof() -> Lexeme {
        Lexeme { kind: TokenKind::Eof, text: Seq::empty() }
    }

    /// Spaces and line breaks separate tokens and carry no meaning.
    pub open spec fn is_blank(self) -> bool {
        self.kind == TokenKind::Spaces || self.kind == TokenKind::LineBreak
    }
}

impl<'c> Token<'c> {
    /// A token of the given kind over the given span.
    pub fn of(kind: TokenKind, string: &'c str) -> (token: Token<'c>)
        ensures
            token@ == (Lexeme { kind, text: string@ }),
    {
        Token { kind, string }
    }

    /// The end-of-input token.
    pub fn eof() -> (token: Token<'static>)
        ensures
            token@ == Lexeme::eof(),
    {
        let token = Token { kind: TokenKind::Eof, string: "" };
        proof {
            reveal_strlit("");
            assert(token@.text =~= Seq::<char>::empty());
        }
        token
    }

    pub fn kind(&self) -> (kind: TokenKind)
        ensures
            kind == self@.kind,
    {
        self.kind
    }

    pub fn string(&self) -> (string: &'c str)
        ensures
            string@ == self@.text,
    {
        self.string
    }
}

/// The recognizers, one for each family of tokens, and `Reset`: no token is
/// in progress. A recognizer decides whether one more character keeps the
/// span that was accumulated so far valid, and finalizes a span into a token.
#[derive(PartialEq, Eq, Clone, Copy, Debug, Structural)]
pub enum TokenMatcher {
    Reset,
    Spaces,
    LineBreak,
    KeywordOrIdent,
    Assign,
    IntegerLiteral,
    StringLiteral,
    ParenOpen,
    ParenClose,
    BraceOpen,
    BraceClose,
    Sep,
}

impl TokenMatcher {
    /// The recognizers in the order in which they are tried on the first
    /// character of a token.
    pub open spec fn ordered() -> Seq<TokenMatcher> {
        seq![
            TokenMatcher::Spaces,
            TokenMatcher::LineBreak,
            TokenMatcher::KeywordOrIdent,
            TokenMatcher::Assign,
            TokenMatcher::IntegerLiteral,
            TokenMatcher::StringLiteral,
            TokenMatcher::ParenOpen,
            TokenMatcher::ParenClose,
            TokenMatcher::BraceOpen,
            TokenMatcher::BraceClose,
            TokenMatcher::Sep,
        ]
    }

    /// Whether the span `buf` stays valid when `c` is appended to it. On the
    /// empty span this is the rule for the first character of a token.
    pub open spec fn accepts(self, buf: Seq<char>, c: char) -> bool {
        match self {
            TokenMatcher::Reset => false,
            TokenMatcher::Spaces => c == ' ',
            TokenMatcher::LineBreak => line_break(c),
            TokenMatcher::KeywordOrIdent => if buf.len() == 0 {
                ascii_alphabetic(c)
            } else {
                ascii_alphanumeric(c)
            },
            TokenMatcher::Assign => buf.len() == 0 && c == '=',
            TokenMatcher::IntegerLiteral => ascii_digit(c),
            TokenMatcher::StringLiteral => if buf.len() == 0 {
                c == '"'
            } else if buf.len() == 1 {
                true
            } else {
                buf.last() != '"'
            },
            TokenMatcher::ParenOpen => buf.len() == 0 && c == '(',
            TokenMatcher::ParenClose => buf.len() == 0 && c == ')',
            TokenMatcher::BraceOpen => buf.len() == 0 && c == '{',
            TokenMatcher::BraceClose => buf.len() == 0 && c == '}',
            TokenMatcher::Sep => buf.len() == 0 && c == ',',
        }
    }

    /// The kind of the token that the recognizer makes of a finished span.
    pub open spec fn kind_of(self, buf: Seq<char>) -> TokenKind
        recommends
            self != TokenMatcher::Reset,
    {
        match self {
            TokenMatcher::Reset => TokenKind::Eof,
            TokenMatcher::Spaces => TokenKind::Spaces,
            TokenMatcher::LineBreak => TokenKind::LineBreak,
            TokenMatcher::KeywordOrIdent => if buf == seq!['v', 'o', 'i', 'd'] {
                TokenKind::KeywordVoid
            } else if buf == seq!['i', 'n', 't'] {
                TokenKind::KeywordInt
            } else {
                TokenKind::Ident
            },
            TokenMatcher::Assign => TokenKind::Assign,
            TokenMatcher::IntegerLiteral => TokenKind::IntegerLiteral,
            TokenMatcher::StringLiteral => TokenKind::StringLiteral,
            TokenMatcher::ParenOpen => TokenKind::ParenOpen,
            TokenMatcher::ParenClose => TokenKind::ParenClose,
            TokenMatcher::BraceOpen => TokenKind::BraceOpen,
            TokenMatcher::BraceClose => TokenKind::BraceClose,
            TokenMatcher::Sep => TokenKind::Sep,
        }
    }

    pub fn all() -> (list: [TokenMatcher; 11])
        ensures
            list@ == Self::ordered(),
    {
        let list = [
            TokenMatcher::Spaces,
            TokenMatcher::LineBreak,
            TokenMatcher::KeywordOrIdent,
            TokenMatcher::Assign,
            TokenMatcher::IntegerLiteral,
            TokenMatcher::StringLiteral,
            TokenMatcher::ParenOpen,
            TokenMatcher::ParenClose,
            TokenMatcher::BraceOpen,
            TokenMatcher::BraceClose,
            TokenMatcher::Sep,
        ];
        assert(list@ =~= Self::ordered());
        list
    }

    /// Decides whether `character` may be appended to the span `buf` of
    /// `char_count` characters.
    pub fn check(self, buf: &str, char_count: usize, character: char) -> (valid: bool)
        requires
            char_count == buf@.len(),
        ensures
            valid == self.accepts(buf@, character),
    {
        match self {
            TokenMatcher::Reset => false,
            TokenMatcher::Spaces => character == ' ',
            TokenMatcher::LineBreak => is_line_break(character),
            TokenMatcher::KeywordOrIdent => {
                if char_count == 0 {
                    is_ascii_alphabetic(character)
                } else {
                    is_ascii_alphanumeric(character)
                }
            },
            TokenMatcher::Assign => char_count == 0 && character == '=',
            TokenMatcher::IntegerLiteral => is_ascii_digit(character),
            TokenMatcher::StringLiteral => {
                if char_count == 0 {
                    character == '"'
                } else if char_count == 1 {
                    true
                } else {
                    !ends_with_quote(buf)
                }
            },
            TokenMatcher::ParenOpen => char_count == 0 && character == '(',
            TokenMatcher::ParenClose => char_count == 0 && character == ')',
            TokenMatcher::BraceOpen => char_count == 0 && character == '{',
            TokenMatcher::BraceClose => char_count == 0 && character == '}',
            TokenMatcher::Sep => char_count == 0 && character == ',',
        }
    }

    /// Finalizes the span `buf` into a token.
    pub fn emit<'c>(self, buf: &'c str) -> (token: Token<'c>)
        requires
            self != TokenMatcher::Reset,
        ensures
            token@ == (Lexeme { kind: self.kind_of(buf@), text: buf@ }),
    {
        let kind = match self {
            TokenMatcher::Reset => TokenKind::Eof,
            TokenMatcher::Spaces => TokenKind::Spaces,
            TokenMatcher::LineBreak => TokenKind::LineBreak,
            TokenMatcher::KeywordOrIdent => {
                proof {
                    reveal_strlit("void");
                    reveal_strlit("int");
                    assert("void"@ =~= seq!['v', 'o', 'i', 'd']);
                    assert("int"@ =~= seq!['i', 'n', 't']);
                }
                if same_text(buf, "void") {
                    TokenKind::KeywordVoid
                } else if same_text(buf, "int") {
                    TokenKind::KeywordInt
                } else {
                    TokenKind::Ident
                }
            },
            TokenMatcher::Assign => TokenKind::Assign,
            TokenMatcher::IntegerLiteral => TokenKind::IntegerLiteral,
            TokenMatcher::StringLiteral => TokenKind::StringLiteral,
            TokenMatcher::ParenOpen => TokenKind::ParenOpen,
            TokenMatcher::ParenClose => TokenKind::ParenClose,
            TokenMatcher::BraceOpen => TokenKind::BraceOpen,
            TokenMatcher::BraceClose => TokenKind::BraceClose,
            TokenMatcher::Sep => TokenKind::Sep,
        };
        Token::of(kind, buf)
    }
}

} // verus!

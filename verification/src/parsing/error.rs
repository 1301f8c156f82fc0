//! How a parse fails. A diagnostic names the kind that was found and the
//! kinds that the grammar accepts at that point. Two other conditions end a
//! parse without a diagnostic: a character that begins no token, and a
//! literal whose text has no value.

use crate::lexer::{TokenKind, TokenMatcherNotFound};
use smallvec::SmallVec;
use vstd::prelude::*;
use vstd::string::*;

verus! {

/// The acceptable kinds of a diagnostic: a `smallvec::SmallVec` that keeps
/// up to four kinds inline. The verifier does not look inside it; what it
/// holds is known through `kinds_of` alone, by the contracts of the three
/// functions below, each of which makes one call into `smallvec`.
#[verifier::external_body]
#[derive(Debug)]
pub struct KindList {
    kinds: SmallVec<[TokenKind; 4]>,
}

/// The kinds that a list holds, in order.
pub uninterp spec fn kinds_of(list: KindList) -> Seq<TokenKind>;

/// `SmallVec::from_iter` on the kinds of a slice: the new list holds them
/// in the order of the slice.
#[verifier::external_body]
fn collect_kinds(kinds: &[TokenKind]) -> (list: KindList)
    ensures
        kinds_of(list) == kinds@,
{
    KindList { kinds: SmallVec::from_iter(kinds.iter().copied()) }
}

/// `SmallVec::as_slice`: the kinds of the list, as a slice.
#[verifier::external_body]
fn kinds_as_slice(list: &KindList) -> (kinds: &[TokenKind])
    ensures
        kinds@ == kinds_of(*list),
{
    list.kinds.as_slice()
}

/// `SmallVec::is_empty`: whether the list holds no kind.
#[verifier::external_body]
fn kinds_is_empty(list: &KindList) -> (empty: bool)
    ensures
        empty == (kinds_of(*list).len() == 0),
{
    list.kinds.is_empty()
}

/// The diagnostic of a parse: a token of kind `found` stood where the
/// grammar accepts the kinds `expected`.
#[derive(Debug)]
pub struct ParsingError {
    found: TokenKind,
    expected: KindList,
}

/// The mathematical value of a diagnostic.
pub struct Diagnostic {
    pub found: TokenKind,
    pub expected: Seq<TokenKind>,
}

impl View for ParsingError {
    type V = Diagnostic;

    closed spec fn view(&self) -> Diagnostic {
        Diagnostic { found: self.found, expected: kinds_of(self.expected) }
    }
}

/// The name of a kind, as it is written in a message.
pub open spec fn kind_name(kind: TokenKind) -> Seq<char> {
    match kind {
        TokenKind::Spaces => "Spaces"@,
        TokenKind::LineBreak => "LineBreak"@,
        TokenKind::KeywordVoid => "KeywordVoid"@,
        TokenKind::KeywordInt => "KeywordInt"@,
        TokenKind::Ident => "Ident"@,
        TokenKind::Assign => "Assign"@,
        TokenKind::IntegerLiteral => "IntegerLiteral"@,
        TokenKind::StringLiteral => "StringLiteral"@,
        TokenKind::ParenOpen => "ParenOpen"@,
        TokenKind::ParenClose => "ParenClose"@,
        TokenKind::BraceOpen => "BraceOpen"@,
        TokenKind::BraceClose => "BraceClose"@,
        TokenKind::Sep => "Sep"@,
        TokenKind::Eof => "Eof"@,
    }
}

/// The names of the kinds, separated by " | ".
pub open spec fn alternatives(expected: Seq<TokenKind>) -> Seq<char>
    decreases expected.len(),
{
    if expected.len() == 0 {
        Seq::empty()
    } else if expected.len() == 1 {
        kind_name(expected[0])
    } else {
        alternatives(expected.drop_last()) + " | "@ + kind_name(expected.last())
    }
}

impl Diagnostic {
    /// The message of the diagnostic.
    pub open spec fn message(self) -> Seq<char> {
        if self.expected.len() == 0 {
            "unexpected token "@ + kind_name(self.found)
        } else {
            "expected "@ + alternatives(self.expected) + ", but found "@ + kind_name(self.found)
        }
    }
}

fn name_of(kind: TokenKind) -> (name: &'static str)
    ensures
        name@ == kind_name(kind),
{
    match kind {
        TokenKind::Spaces => "Spaces",
        TokenKind::LineBreak => "LineBreak",
        TokenKind::KeywordVoid => "KeywordVoid",
        TokenKind::KeywordInt => "KeywordInt",
        TokenKind::Ident => "Ident",
        TokenKind::Assign => "Assign",
        TokenKind::IntegerLiteral => "IntegerLiteral",
        TokenKind::StringLiteral => "StringLiteral",
        TokenKind::ParenOpen => "ParenOpen",
        TokenKind::ParenClose => "ParenClose",
        TokenKind::BraceOpen => "BraceOpen",
        TokenKind::BraceClose => "BraceClose",
        TokenKind::Sep => "Sep",
        TokenKind::Eof => "Eof",
    }
}

/// Writes the names of the kinds, separated by " | ".
pub fn format_expected(expected: &[TokenKind]) -> (text: String)
    ensures
        text@ == alternatives(expected@),
{
    let mut text = String::new();
    let mut i: usize = 0;
    assert(expected@.take(0) =~= Seq::<TokenKind>::empty());
    while i < expected.len()
        invariant
            i <= expected@.len(),
            text@ == alternatives(expected@.take(i as int)),
        decreases expected@.len() - i,
    {
        if i > 0 {
            text.append(" | ");
        }
        text.append(name_of(expected[i]));
        proof {
            let next = expected@.take(i + 1);
            assert(next.drop_last() =~= expected@.take(i as int));
            assert(next.last() == expected@[i as int]);
            if i == 0 {
                assert(text@ =~= kind_name(expected@[0]));
            }
        }
        i += 1;
    }
    assert(expected@.take(i as int) =~= expected@);
    text
}

impl ParsingError {
    pub fn new(found: TokenKind, expected: &[TokenKind]) -> (error: ParsingError)
        ensures
            error@ == (Diagnostic { found, expected: expected@ }),
    {
        ParsingError { found, expected: collect_kinds(expected) }
    }

    /// The kind of the offending token.
    pub fn found(&self) -> (found: TokenKind)
        ensures
            found == self@.found,
    {
        self.found
    }

    /// The kinds that the grammar accepts in its place.
    pub fn expected(&self) -> (expected: &[TokenKind])
        ensures
            expected@ == self@.expected,
    {
        kinds_as_slice(&self.expected)
    }

    /// The message of the diagnostic.
    pub fn message(&self) -> (text: String)
        ensures
            text@ == self@.message(),
    {
        if kinds_is_empty(&self.expected) {
            let mut text = String::from_str("unexpected token ");
            text.append(name_of(self.found));
            text
        } else {
            let mut text = String::from_str("expected ");
            let expected = format_expected(kinds_as_slice(&self.expected));
            text.append(expected.as_str());
            text.append(", but found ");
            text.append(name_of(self.found));
            text
        }
    }
}

/// Why a parse ended without a tree.
#[derive(Debug)]
pub enum ParseFailure {
    /// The lexer came upon a character that begins no token.
    Lex(TokenMatcherNotFound),
    /// A literal of the given kind has no value: the number that an integer
    /// literal writes does not fit 32 bits, or a string literal is the bare
    /// opening quote.
    Literal(TokenKind),
    /// The tokens do not follow the grammar.
    Parsing(ParsingError),
}

/// The mathematical value of a failure.
pub enum Failure {
    Lex,
    Literal(TokenKind),
    Parsing(Diagnostic),
}

impl View for ParseFailure {
    type V = Failure;

    open spec fn view(&self) -> Failure {
        match self {
            ParseFailure::Lex(_) => Failure::Lex,
            ParseFailure::Literal(kind) => Failure::Literal(*kind),
            ParseFailure::Parsing(error) => Failure::Parsing(error@),
        }
    }
}

} // verus!

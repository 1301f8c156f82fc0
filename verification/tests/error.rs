use transpiler::lexer::TokenKind;
use transpiler::parsing::error::{format_expected, ParsingError};

#[test]
fn diagnostic_keeps_found_and_expected() {
    let error = ParsingError::new(TokenKind::BraceOpen, &[TokenKind::KeywordInt, TokenKind::Ident]);
    assert_eq!(error.found(), TokenKind::BraceOpen);
    assert_eq!(error.expected(), &[TokenKind::KeywordInt, TokenKind::Ident]);
}

#[test]
fn diagnostic_keeps_more_kinds_than_it_holds_inline() {
    let all = [
        TokenKind::Spaces,
        TokenKind::LineBreak,
        TokenKind::KeywordVoid,
        TokenKind::KeywordInt,
        TokenKind::Ident,
        TokenKind::Assign,
    ];
    let error = ParsingError::new(TokenKind::Eof, &all);
    assert_eq!(error.expected(), &all);
}

#[test]
fn alternatives_are_separated_by_bars() {
    assert_eq!(format_expected(&[]), "");
    assert_eq!(format_expected(&[TokenKind::Ident]), "Ident");
    assert_eq!(format_expected(&[TokenKind::KeywordInt, TokenKind::Ident]), "KeywordInt | Ident");
    assert_eq!(
        format_expected(&[TokenKind::KeywordInt, TokenKind::Ident, TokenKind::KeywordVoid]),
        "KeywordInt | Ident | KeywordVoid"
    );
}

#[test]
fn kinds_are_written_by_their_names() {
    let all = [
        TokenKind::Spaces,
        TokenKind::LineBreak,
        TokenKind::KeywordVoid,
        TokenKind::KeywordInt,
        TokenKind::Ident,
        TokenKind::Assign,
        TokenKind::IntegerLiteral,
        TokenKind::StringLiteral,
        TokenKind::ParenOpen,
        TokenKind::ParenClose,
        TokenKind::BraceOpen,
        TokenKind::BraceClose,
        TokenKind::Sep,
        TokenKind::Eof,
    ];
    for kind in all {
        assert_eq!(format_expected(&[kind]), format!("{:?}", kind));
    }
}

#[test]
fn message_of_a_diagnostic() {
    let error = ParsingError::new(TokenKind::BraceOpen, &[TokenKind::Sep, TokenKind::ParenClose]);
    assert_eq!(error.message(), "expected Sep | ParenClose, but found BraceOpen");
    let error = ParsingError::new(TokenKind::Eof, &[TokenKind::Ident]);
    assert_eq!(error.message(), "expected Ident, but found Eof");
}

#[test]
fn message_of_a_diagnostic_that_expects_nothing() {
    let error = ParsingError::new(TokenKind::Sep, &[]);
    assert!(error.expected().is_empty());
    assert_eq!(error.message(), "unexpected token Sep");
}

use transpiler::lexer::{Lexer, Token, TokenKind};
use transpiler::parsing::ast::{Literal, Type, TypeOrVoid};
use transpiler::parsing::error::ParseFailure;
use transpiler::parsing::seq::TokenSeq;

fn seq(source: &str) -> TokenSeq<'_> {
    TokenSeq::new(Lexer::new(source))
}

#[test]
fn current_token_stays_until_it_is_consumed() {
    let mut seq = seq("a b");
    assert_eq!(seq.current_token(), Token::of(TokenKind::Ident, "a"));
    assert_eq!(seq.current_token(), Token::of(TokenKind::Ident, "a"));
    seq.go_next();
    assert_eq!(seq.current_token(), Token::of(TokenKind::Spaces, " "));
    seq.go_next();
    assert_eq!(seq.current_token(), Token::of(TokenKind::Ident, "b"));
    seq.go_next();
    assert_eq!(seq.current_token(), Token::eof());
    seq.go_next();
    assert_eq!(seq.current_token(), Token::eof());
}

#[test]
fn go_next_without_a_token_held_back_consumes_nothing() {
    let mut seq = seq("a b");
    seq.go_next();
    seq.go_next();
    assert_eq!(seq.current_token(), Token::of(TokenKind::Ident, "a"));
}

#[test]
fn next_token_consumes() {
    let mut seq = seq("a=1");
    assert_eq!(seq.next_token(), Token::of(TokenKind::Ident, "a"));
    assert_eq!(seq.next_token(), Token::of(TokenKind::Assign, "="));
    assert_eq!(seq.next_token(), Token::of(TokenKind::IntegerLiteral, "1"));
    assert_eq!(seq.next_token(), Token::eof());
    assert_eq!(seq.next_token(), Token::eof());
}

#[test]
fn solid_token_skips_spaces_and_line_breaks() {
    let mut seq = seq("  \n \r\n  x y");
    assert_eq!(seq.solid_token(), Token::of(TokenKind::Ident, "x"));
    assert_eq!(seq.solid_token(), Token::of(TokenKind::Ident, "x"));
    assert_eq!(seq.current_token(), Token::of(TokenKind::Ident, "x"));
    assert_eq!(seq.next_solid_token(), Token::of(TokenKind::Ident, "x"));
    assert_eq!(seq.next_solid_token(), Token::of(TokenKind::Ident, "y"));
    assert_eq!(seq.next_solid_token(), Token::eof());
}

#[test]
fn checked_peeks_report_a_character_that_begins_no_token() {
    let mut seq = seq("a  $b");
    assert_eq!(seq.try_current_token().unwrap(), Token::of(TokenKind::Ident, "a"));
    assert_eq!(seq.try_solid_token().unwrap(), Token::of(TokenKind::Ident, "a"));
    seq.go_next();
    assert!(seq.try_solid_token().is_err());
    assert!(seq.try_current_token().is_err());
    assert!(seq.try_solid_token().is_err());
}

#[test]
fn checked_peek_leaves_the_spaces_before_a_failure_consumed() {
    let mut seq = seq(" $");
    assert_eq!(seq.try_current_token().unwrap(), Token::of(TokenKind::Spaces, " "));
    assert!(seq.try_solid_token().is_err());
    assert!(seq.try_current_token().is_err());
}

#[test]
fn expect_type_reads_int_or_a_name() {
    let mut seq = seq(" int Foo void");
    assert_eq!(seq.expect_type().unwrap(), Type::Int);
    assert_eq!(seq.expect_type().unwrap(), Type::Custom { name: "Foo" });
    let error = seq.expect_type().unwrap_err();
    assert_eq!(error.found(), TokenKind::KeywordVoid);
    assert_eq!(error.expected(), &[TokenKind::KeywordInt, TokenKind::Ident]);
    assert_eq!(seq.current_token(), Token::eof());
}

#[test]
fn expect_type_or_void_reads_void_too() {
    let mut seq = seq("void int Foo 1");
    assert_eq!(seq.expect_type_or_void().unwrap(), TypeOrVoid::Void);
    assert_eq!(seq.expect_type_or_void().unwrap(), TypeOrVoid::Type(Type::Int));
    assert_eq!(
        seq.expect_type_or_void().unwrap(),
        TypeOrVoid::Type(Type::Custom { name: "Foo" })
    );
    let error = seq.expect_type_or_void().unwrap_err();
    assert_eq!(error.found(), TokenKind::IntegerLiteral);
    assert_eq!(
        error.expected(),
        &[TokenKind::KeywordInt, TokenKind::Ident, TokenKind::KeywordVoid]
    );
}

#[test]
fn expect_ident_reads_a_name_only() {
    let mut seq = seq("main int");
    assert_eq!(seq.expect_ident().unwrap().name, "main");
    let error = seq.expect_ident().unwrap_err();
    assert_eq!(error.found(), TokenKind::KeywordInt);
    assert_eq!(error.expected(), &[TokenKind::Ident]);
}

#[test]
fn expect_token_reads_the_given_kind_only() {
    let mut seq = seq("( )");
    assert!(seq.expect_token(TokenKind::ParenOpen).is_ok());
    let error = seq.expect_token(TokenKind::BraceOpen).unwrap_err();
    assert_eq!(error.found(), TokenKind::ParenClose);
    assert_eq!(error.expected(), &[TokenKind::BraceOpen]);
    let error = seq.expect_token(TokenKind::ParenClose).unwrap_err();
    assert_eq!(error.found(), TokenKind::Eof);
    assert_eq!(error.expected(), &[TokenKind::ParenClose]);
}

#[test]
fn expect_literal_reads_numbers_and_strings() {
    let mut seq = seq("5 007 2147483647 \"hi\" \"\" \"a\u{e9}\" x");
    assert!(matches!(seq.expect_literal().unwrap(), Literal::Integer(5)));
    assert!(matches!(seq.expect_literal().unwrap(), Literal::Integer(7)));
    assert!(matches!(seq.expect_literal().unwrap(), Literal::Integer(2147483647)));
    assert!(matches!(seq.expect_literal().unwrap(), Literal::String("hi")));
    assert!(matches!(seq.expect_literal().unwrap(), Literal::String("")));
    assert!(matches!(seq.expect_literal().unwrap(), Literal::String("a\u{e9}")));
    let error = seq.expect_literal().unwrap_err();
    assert_eq!(error.found(), TokenKind::Ident);
    assert_eq!(error.expected(), &[TokenKind::IntegerLiteral, TokenKind::StringLiteral]);
}

#[test]
fn expect_literal_strips_the_first_and_the_last_character() {
    let mut unterminated = seq("\"abc");
    assert!(matches!(unterminated.expect_literal().unwrap(), Literal::String("ab")));
    let mut wide = seq("\"\u{e9}");
    assert!(matches!(wide.expect_literal().unwrap(), Literal::String("")));
}

#[test]
fn expect_end_reads_a_line_break_or_the_end() {
    let mut seq = seq("\n\nx");
    assert!(seq.expect_end().is_ok());
    let error = seq.expect_end().unwrap_err();
    assert_eq!(error.found(), TokenKind::Ident);
    assert_eq!(error.expected(), &[TokenKind::LineBreak, TokenKind::Eof]);
    assert_eq!(seq.current_token(), Token::of(TokenKind::Ident, "x"));
    seq.go_next();
    assert!(seq.expect_end().is_ok());
    assert!(seq.expect_end().is_ok());
}

#[test]
fn expect_end_skips_nothing() {
    let mut seq = seq(" \n");
    let error = seq.expect_end().unwrap_err();
    assert_eq!(error.found(), TokenKind::Spaces);
    assert_eq!(seq.current_token(), Token::of(TokenKind::Spaces, " "));
}

#[test]
fn checked_primitives_read_what_the_others_read() {
    let mut seq = seq("void int x ( 5 \"s\"\n");
    assert_eq!(seq.try_expect_type_or_void().unwrap(), TypeOrVoid::Void);
    assert_eq!(seq.try_expect_type().unwrap(), Type::Int);
    assert_eq!(seq.try_expect_ident().unwrap().name, "x");
    assert!(seq.try_expect_token(TokenKind::ParenOpen).is_ok());
    assert!(matches!(seq.try_expect_literal().unwrap(), Literal::Integer(5)));
    assert!(matches!(seq.try_expect_literal().unwrap(), Literal::String("s")));
    assert!(seq.try_expect_end().is_ok());
    assert!(seq.try_expect_end().is_ok());
}

#[test]
fn checked_primitives_report_a_mismatch() {
    let mut seq = seq(") ) ) ) ) )");
    for _ in 0..2 {
        match seq.try_expect_type() {
            Err(ParseFailure::Parsing(error)) => {
                assert_eq!(error.found(), TokenKind::ParenClose);
                assert_eq!(error.expected(), &[TokenKind::KeywordInt, TokenKind::Ident]);
            }
            _ => panic!("a diagnostic"),
        }
    }
    assert!(matches!(seq.try_expect_type_or_void(), Err(ParseFailure::Parsing(_))));
    assert!(matches!(seq.try_expect_ident(), Err(ParseFailure::Parsing(_))));
    assert!(matches!(seq.try_expect_token(TokenKind::Sep), Err(ParseFailure::Parsing(_))));
    assert!(matches!(seq.try_expect_literal(), Err(ParseFailure::Parsing(_))));
    assert!(seq.try_expect_end().is_ok());
}

#[test]
fn checked_primitives_report_a_character_that_begins_no_token() {
    assert!(matches!(seq(" $").try_expect_type(), Err(ParseFailure::Lex(_))));
    assert!(matches!(seq("$").try_expect_type_or_void(), Err(ParseFailure::Lex(_))));
    assert!(matches!(seq("\n#").try_expect_ident(), Err(ParseFailure::Lex(_))));
    assert!(matches!(seq("%").try_expect_token(TokenKind::Sep), Err(ParseFailure::Lex(_))));
    assert!(matches!(seq("-1").try_expect_literal(), Err(ParseFailure::Lex(_))));
    assert!(matches!(seq(";").try_expect_end(), Err(ParseFailure::Lex(_))));
}

#[test]
fn checked_literal_reports_a_literal_without_a_value() {
    let mut large = seq(" 2147483648 ");
    assert!(matches!(
        large.try_expect_literal(),
        Err(ParseFailure::Literal(TokenKind::IntegerLiteral))
    ));
    assert_eq!(large.current_token(), Token::of(TokenKind::IntegerLiteral, "2147483648"));
    let mut quote = seq("\"");
    assert!(matches!(
        quote.try_expect_literal(),
        Err(ParseFailure::Literal(TokenKind::StringLiteral))
    ));
    assert_eq!(quote.current_token(), Token::of(TokenKind::StringLiteral, "\""));
}

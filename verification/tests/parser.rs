use transpiler::lexer::{Lexer, TokenKind};
use transpiler::parsing::ast::stmt::Statement;
use transpiler::parsing::ast::{Literal, Type, TypeOrVoid, AST};
use transpiler::parsing::error::{ParseFailure, ParsingError};
use transpiler::parsing::parser::Parser;
use transpiler::parsing::{build_ast, try_build_ast};

fn parse(source: &str) -> AST<'_> {
    build_ast(Lexer::new(source)).expect("a tree")
}

fn diagnostic(source: &str) -> ParsingError {
    build_ast(Lexer::new(source)).expect_err("a diagnostic")
}

#[test]
fn void_main_that_prints() {
    let ast = parse("void main() {\nprint(\"hi\")\n}");
    let declarations = ast.declarations();
    assert_eq!(declarations.len(), 1);
    let main = &declarations[0];
    assert_eq!(main.return_type(), TypeOrVoid::Void);
    assert_eq!(main.name().name, "main");
    assert_eq!(main.args().len(), 0);
    assert_eq!(main.stmts().len(), 1);
    match &main.stmts()[0] {
        Statement::FunctionCall(call) => {
            assert_eq!(call.name().name, "print");
            assert_eq!(call.args().len(), 1);
            assert!(matches!(call.args()[0], Literal::String("hi")));
        }
        other => panic!("a call, not {:?}", other),
    }
}

#[test]
fn typed_variable() {
    let ast = parse("int main() {\nint x = 5\n}");
    let declarations = ast.declarations();
    assert_eq!(declarations.len(), 1);
    let main = &declarations[0];
    assert_eq!(main.return_type(), TypeOrVoid::Type(Type::Int));
    assert_eq!(main.stmts().len(), 1);
    match &main.stmts()[0] {
        Statement::VariableDeclaration(variable) => {
            assert_eq!(variable.var_type(), Type::Int);
            assert_eq!(variable.name().name, "x");
            assert!(matches!(variable.value(), Literal::Integer(5)));
        }
        other => panic!("a variable, not {:?}", other),
    }
}

#[test]
fn missing_end_of_the_argument_list() {
    let error = diagnostic("void main( {");
    assert_eq!(error.found(), TokenKind::BraceOpen);
    assert_eq!(error.expected(), &[TokenKind::KeywordInt, TokenKind::Ident]);
}

#[test]
fn missing_separator_between_arguments() {
    let error = diagnostic("void main(int a {");
    assert_eq!(error.found(), TokenKind::BraceOpen);
    assert_eq!(error.expected(), &[TokenKind::Sep, TokenKind::ParenClose]);
    let error = diagnostic("void main(int a int b) {}");
    assert_eq!(error.found(), TokenKind::KeywordInt);
    assert_eq!(error.expected(), &[TokenKind::Sep, TokenKind::ParenClose]);
}

#[test]
fn separator_before_the_end_of_the_argument_list() {
    let error = diagnostic("void main(int a,) {}");
    assert_eq!(error.found(), TokenKind::ParenClose);
    assert_eq!(error.expected(), &[TokenKind::KeywordInt, TokenKind::Ident]);
}

#[test]
fn separator_at_the_start_of_the_argument_list() {
    let error = diagnostic("void main(,int a) {}");
    assert_eq!(error.found(), TokenKind::Sep);
    assert_eq!(error.expected(), &[TokenKind::KeywordInt, TokenKind::Ident]);
}

#[test]
fn empty_source_has_no_declaration() {
    assert_eq!(parse("").declarations().len(), 0);
    assert_eq!(parse(" \n\r\n  ").declarations().len(), 0);
}

#[test]
fn declarations_in_source_order() {
    let ast = parse("void a() {}\nint b(int x, Foo y) {}\nBar c() {}");
    let declarations = ast.declarations();
    assert_eq!(declarations.len(), 3);
    assert_eq!(declarations[0].name().name, "a");
    assert_eq!(declarations[1].name().name, "b");
    assert_eq!(declarations[2].name().name, "c");
    assert_eq!(declarations[2].return_type(), TypeOrVoid::Type(Type::Custom { name: "Bar" }));
    let args = declarations[1].args();
    assert_eq!(args.len(), 2);
    assert_eq!(args[0].arg_type(), Type::Int);
    assert_eq!(args[0].name().name, "x");
    assert_eq!(args[1].arg_type(), Type::Custom { name: "Foo" });
    assert_eq!(args[1].name().name, "y");
}

#[test]
fn statements_in_source_order() {
    let ast = parse("void main() {\n  int x = 5\n  print(\"a\", 2, \"c\")\n  int y = \"s\"\n  f()\n}\n");
    let stmts = ast.declarations()[0].stmts();
    assert_eq!(stmts.len(), 4);
    match &stmts[1] {
        Statement::FunctionCall(call) => {
            assert_eq!(call.name().name, "print");
            assert_eq!(call.args().len(), 3);
            assert!(matches!(call.args()[0], Literal::String("a")));
            assert!(matches!(call.args()[1], Literal::Integer(2)));
            assert!(matches!(call.args()[2], Literal::String("c")));
        }
        other => panic!("a call, not {:?}", other),
    }
    match &stmts[2] {
        Statement::VariableDeclaration(variable) => {
            assert_eq!(variable.var_type(), Type::Int);
            assert_eq!(variable.name().name, "y");
            assert!(matches!(variable.value(), Literal::String("s")));
        }
        other => panic!("a variable, not {:?}", other),
    }
    match &stmts[3] {
        Statement::FunctionCall(call) => assert_eq!(call.args().len(), 0),
        other => panic!("a call, not {:?}", other),
    }
}

#[test]
fn call_arguments_need_a_separator() {
    let error = diagnostic("void main() {\nprint(\"a\" \"b\")\n}");
    assert_eq!(error.found(), TokenKind::StringLiteral);
    assert_eq!(error.expected(), &[TokenKind::Sep, TokenKind::ParenClose]);
}

#[test]
fn separator_before_the_end_of_the_call_arguments() {
    let error = diagnostic("void main() {\nprint(\"a\",)\n}");
    assert_eq!(error.found(), TokenKind::ParenClose);
    assert_eq!(error.expected(), &[TokenKind::IntegerLiteral, TokenKind::StringLiteral]);
}

#[test]
fn statement_ends_at_once() {
    let error = diagnostic("void main() {\nint x = 5 \n}");
    assert_eq!(error.found(), TokenKind::Spaces);
    assert_eq!(error.expected(), &[TokenKind::LineBreak, TokenKind::Eof]);
    let error = diagnostic("void main() {\nprint(1) }");
    assert_eq!(error.found(), TokenKind::Spaces);
    let error = diagnostic("void main() {\nprint(1)}");
    assert_eq!(error.found(), TokenKind::BraceClose);
    assert_eq!(error.expected(), &[TokenKind::LineBreak, TokenKind::Eof]);
}

#[test]
fn declaration_ends_at_once() {
    let error = diagnostic("void main() {} void other() {}");
    assert_eq!(error.found(), TokenKind::Spaces);
    assert_eq!(error.expected(), &[TokenKind::LineBreak, TokenKind::Eof]);
}

#[test]
fn declaration_begins_with_a_return_type() {
    let error = diagnostic("5");
    assert_eq!(error.found(), TokenKind::IntegerLiteral);
    assert_eq!(
        error.expected(),
        &[TokenKind::KeywordInt, TokenKind::Ident, TokenKind::KeywordVoid]
    );
}

#[test]
fn declaration_needs_a_name_and_parentheses_and_braces() {
    let error = diagnostic("void (");
    assert_eq!(error.found(), TokenKind::ParenOpen);
    assert_eq!(error.expected(), &[TokenKind::Ident]);
    let error = diagnostic("void main {");
    assert_eq!(error.found(), TokenKind::BraceOpen);
    assert_eq!(error.expected(), &[TokenKind::ParenOpen]);
    let error = diagnostic("void main() int");
    assert_eq!(error.found(), TokenKind::KeywordInt);
    assert_eq!(error.expected(), &[TokenKind::BraceOpen]);
}

#[test]
fn body_without_its_closing_brace() {
    let error = diagnostic("void main() {\n");
    assert_eq!(error.found(), TokenKind::Eof);
    assert_eq!(error.expected(), &[TokenKind::KeywordInt, TokenKind::Ident]);
}

#[test]
fn variable_needs_assign_and_a_literal() {
    let error = diagnostic("void main() {\nint x 5\n}");
    assert_eq!(error.found(), TokenKind::IntegerLiteral);
    assert_eq!(error.expected(), &[TokenKind::Assign]);
    let error = diagnostic("void main() {\nint x = y\n}");
    assert_eq!(error.found(), TokenKind::Ident);
    assert_eq!(error.expected(), &[TokenKind::IntegerLiteral, TokenKind::StringLiteral]);
}

#[test]
fn statement_that_begins_with_a_name_is_a_call() {
    let error = diagnostic("void main() {\nFoo x = 5\n}");
    assert_eq!(error.found(), TokenKind::Ident);
    assert_eq!(error.expected(), &[TokenKind::ParenOpen]);
}

#[test]
fn first_failure_wins() {
    let error = diagnostic("void main( {\n$ also bad");
    assert_eq!(error.found(), TokenKind::BraceOpen);
}

#[test]
fn parser_parses_from_a_lexer() {
    let mut parser = Parser::new(Lexer::new("void f() {}"));
    let ast = parser.parse().unwrap();
    assert_eq!(ast.declarations().len(), 1);
    let again = parser.parse().unwrap();
    assert_eq!(again.declarations().len(), 0);
}

#[test]
fn checked_parse_reads_what_parse_reads() {
    let ast = try_build_ast(Lexer::new("void main() {\nprint(\"hi\")\n}")).unwrap();
    assert_eq!(ast.declarations().len(), 1);
    match try_build_ast(Lexer::new("void main(int a,) {}")) {
        Err(ParseFailure::Parsing(error)) => {
            assert_eq!(error.found(), TokenKind::ParenClose);
            assert_eq!(error.expected(), &[TokenKind::KeywordInt, TokenKind::Ident]);
        }
        other => panic!("a diagnostic, not {:?}", other.map(|_| ())),
    }
    let mut parser = Parser::new(Lexer::new("int f() {}\n"));
    assert_eq!(parser.try_parse().unwrap().declarations().len(), 1);
}

#[test]
fn checked_parse_reports_a_character_that_begins_no_token() {
    for source in ["$", "void main() {\n  int x = 5;\n}", "void main() {}\n#", "void main(int a; int b) {}"] {
        assert!(matches!(try_build_ast(Lexer::new(source)), Err(ParseFailure::Lex(_))));
    }
}

#[test]
fn checked_parse_reports_a_literal_without_a_value() {
    assert!(matches!(
        try_build_ast(Lexer::new("void main() {\nint x = 2147483648\n}")),
        Err(ParseFailure::Literal(TokenKind::IntegerLiteral))
    ));
    assert!(matches!(
        try_build_ast(Lexer::new("void main() {\nprint(1, 99999999999)\n}")),
        Err(ParseFailure::Literal(TokenKind::IntegerLiteral))
    ));
    assert!(matches!(
        try_build_ast(Lexer::new("void main() {\nprint(\"")),
        Err(ParseFailure::Literal(TokenKind::StringLiteral))
    ));
}

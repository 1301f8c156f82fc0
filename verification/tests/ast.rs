use transpiler::parsing::ast::stmt::{FunctionCall, Statement, VariableDeclaration};
use transpiler::parsing::ast::{
    FunctionArg, FunctionDeclaration, Ident, Literal, Type, TypeOrVoid, AST,
};

#[test]
fn literals() {
    assert!(matches!(Literal::integer(-3), Literal::Integer(-3)));
    assert!(matches!(Literal::string("s"), Literal::String("s")));
}

#[test]
fn identifier_compares_with_text() {
    let ident = Ident { name: "main" };
    assert!(ident == "main");
    assert!(ident != "mainx");
    assert!(ident != "");
}

#[test]
fn variable_declaration_keeps_its_parts() {
    let variable =
        VariableDeclaration::new(Type::Int, Ident { name: "x" }, Literal::integer(5));
    assert_eq!(variable.var_type(), Type::Int);
    assert_eq!(variable.name().name, "x");
    assert!(matches!(variable.value(), Literal::Integer(5)));
    assert!(matches!(Statement::var_decl(variable), Statement::VariableDeclaration(_)));
}

#[test]
fn function_call_keeps_its_parts() {
    let call = FunctionCall::new(
        Ident { name: "print" },
        vec![Literal::string("a"), Literal::integer(1)],
    );
    assert_eq!(call.name().name, "print");
    assert_eq!(call.args().len(), 2);
    assert!(matches!(call.args()[0], Literal::String("a")));
    assert!(matches!(call.args()[1], Literal::Integer(1)));
    assert!(matches!(Statement::function_call(call), Statement::FunctionCall(_)));
}

#[test]
fn function_declaration_keeps_its_parts() {
    let arg = FunctionArg::new(Type::Custom { name: "Foo" }, Ident { name: "a" });
    assert_eq!(arg.arg_type(), Type::Custom { name: "Foo" });
    assert_eq!(arg.name().name, "a");
    let call = FunctionCall::new(Ident { name: "f" }, Vec::new());
    let declaration = FunctionDeclaration::new(
        TypeOrVoid::Type(Type::Int),
        Ident { name: "main" },
        vec![arg],
        vec![Statement::function_call(call)],
    );
    assert_eq!(declaration.return_type(), TypeOrVoid::Type(Type::Int));
    assert_eq!(declaration.name().name, "main");
    assert_eq!(declaration.args().len(), 1);
    assert_eq!(declaration.stmts().len(), 1);
    let ast = AST::new(vec![declaration]);
    assert_eq!(ast.declarations().len(), 1);
    assert_eq!(ast.declarations()[0].name().name, "main");
}

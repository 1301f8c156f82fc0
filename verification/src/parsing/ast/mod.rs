//! The abstract syntax tree: what a successful parse hands to its consumer.
//! Every name and string in it is a span of the source text.

pub mod stmt;

use crate::text::same_text;
use stmt::{Statement, StatementModel};
use vstd::prelude::*;
use vstd::std_specs::cmp::PartialEqSpecImpl;

verus! {

/// The mathematical value of each element of a sequence.
pub open spec fn views<T: View>(items: Seq<T>) -> Seq<T::V> {
    items.map_values(|item: T| item@)
}

/// Appending an element appends its value.
pub proof fn lemma_views_push<T: View>(items: Seq<T>, item: T)
    ensures
        views(items.push(item)) == views(items).push(item@),
{
    assert(views(items.push(item)) =~= views(items).push(item@));
}

/// The type of a variable or of an argument. A name that is no keyword is
/// taken as it stands.
#[derive(PartialEq, Eq, Clone, Copy, Debug)]
pub enum Type<'a> {
    Int,
    Custom { name: &'a str },
}

pub enum TypeModel {
    Int,
    Custom { name: Seq<char> },
}

impl<'a> View for Type<'a> {
    type V = TypeModel;

    open spec fn view(&self) -> TypeModel {
        match self {
            Type::Int => TypeModel::Int,
            Type::Custom { name } => TypeModel::Custom { name: name@ },
        }
    }
}

/// The return type of a function.
#[derive(PartialEq, Eq, Clone, Copy, Debug)]
pub enum TypeOrVoid<'a> {
    Void,
    Type(Type<'a>),
}

pub enum TypeOrVoidModel {
    Void,
    Type(TypeModel),
}

impl<'a> View for TypeOrVoid<'a> {
    type V = TypeOrVoidModel;

    open spec fn view(&self) -> TypeOrVoidModel {
        match self {
            TypeOrVoid::Void => TypeOrVoidModel::Void,
            TypeOrVoid::Type(t) => TypeOrVoidModel::Type(t@),
        }
    }
}

#[derive(Clone, Copy, Debug)]
pub struct Ident<'a> {
    pub name: &'a str,
}

pub struct IdentModel {
    pub name: Seq<char>,
}

impl<'a> View for Ident<'a> {
    type V = IdentModel;

    open spec fn view(&self) -> IdentModel {
        IdentModel { name: self.name@ }
    }
}

impl<'a> PartialEq<&str> for Ident<'a> {
    fn eq(&self, other: &&str) -> (equal: bool) {
        same_text(self.name, *other)
    }
}

impl<'a> PartialEqSpecImpl<&str> for Ident<'a> {
    open spec fn obeys_eq_spec() -> bool {
        true
    }

    open spec fn eq_spec(&self, other: &&str) -> bool {
        self.name@ == other@
    }
}

#[derive(Clone, Copy, Debug)]
pub enum Literal<'a> {
    Integer(i32),
    String(&'a str),
}

pub enum LiteralModel {
    Integer(i32),
    String(Seq<char>),
}

impl<'a> View for Literal<'a> {
    type V = LiteralModel;

    open spec fn view(&self) -> LiteralModel {
        match self {
            Literal::Integer(value) => LiteralModel::Integer(*value),
            Literal::String(value) => LiteralModel::String(value@),
        }
    }
}

impl<'a> Literal<'a> {
    pub fn integer(val: i32) -> (literal: Literal<'a>)
        ensures
            literal@ == LiteralModel::Integer(val),
    {
        Literal::Integer(val)
    }

    pub fn string(val: &'a str) -> (literal: Literal<'a>)
        ensures
            literal@ == LiteralModel::String(val@),
    {
        Literal::String(val)
    }
}

#[derive(Debug)]
pub struct FunctionArg<'a> {
    arg_type: Type<'a>,
    name: Ident<'a>,
}

pub struct FunctionArgModel {
    pub arg_type: TypeModel,
    pub name: IdentModel,
}

impl<'a> View for FunctionArg<'a> {
    type V = FunctionArgModel;

    closed spec fn view(&self) -> FunctionArgModel {
        FunctionArgModel { arg_type: self.arg_type@, name: self.name@ }
    }
}

impl<'a> FunctionArg<'a> {
    pub fn new(arg_type: Type<'a>, name: Ident<'a>) -> (arg: FunctionArg<'a>)
        ensures
            arg@ == (FunctionArgModel { arg_type: arg_type@, name: name@ }),
    {
        FunctionArg { arg_type, name }
    }

    pub fn arg_type(&self) -> (arg_type: Type<'a>)
        ensures
            arg_type@ == self@.arg_type,
    {
        self.arg_type
    }

    pub fn name(&self) -> (name: Ident<'a>)
        ensures
            name@ == self@.name,
    {
        self.name
    }
}

#[derive(Debug)]
pub struct FunctionDeclaration<'a> {
    return_type: TypeOrVoid<'a>,
    name: Ident<'a>,
    args: Vec<FunctionArg<'a>>,
    stmts: Vec<Statement<'a>>,
}

pub struct FunctionDeclarationModel {
    pub return_type: TypeOrVoidModel,
    pub name: IdentModel,
    pub args: Seq<FunctionArgModel>,
    pub stmts: Seq<StatementModel>,
}

impl<'a> View for FunctionDeclaration<'a> {
    type V = FunctionDeclarationModel;

    closed spec fn view(&self) -> FunctionDeclarationModel {
        FunctionDeclarationModel {
            return_type: self.return_type@,
            name: self.name@,
            args: views(self.args@),
            stmts: views(self.stmts@),
        }
    }
}

impl<'a> FunctionDeclaration<'a> {
    pub fn new(
        return_type: TypeOrVoid<'a>,
        name: Ident<'a>,
        args: Vec<FunctionArg<'a>>,
        stmts: Vec<Statement<'a>>,
    ) -> (declaration: FunctionDeclaration<'a>)
        ensures
            declaration@ == (FunctionDeclarationModel {
                return_type: return_type@,
                name: name@,
                args: views(args@),
                stmts: views(stmts@),
            }),
    {
        FunctionDeclaration { return_type, name, args, stmts }
    }

    pub fn return_type(&self) -> (return_type: TypeOrVoid<'a>)
        ensures
            return_type@ == self@.return_type,
    {
        self.return_type
    }

    pub fn name(&self) -> (name: Ident<'a>)
        ensures
            name@ == self@.name,
    {
        self.name
    }

    pub fn args(&self) -> (args: &[FunctionArg<'a>])
        ensures
            views(args@) == self@.args,
    {
        self.args.as_slice()
    }

    pub fn stmts(&self) -> (stmts: &[Statement<'a>])
        ensures
            views(stmts@) == self@.stmts,
    {
        self.stmts.as_slice()
    }
}

/// The root of the tree: the function declarations in source order.
#[derive(Debug)]
pub struct AST<'a> {
    declarations: Vec<FunctionDeclaration<'a>>,
}

pub struct AstModel {
    pub declarations: Seq<FunctionDeclarationModel>,
}

impl<'a> View for AST<'a> {
    type V = AstModel;

    closed spec fn view(&self) -> AstModel {
        AstModel { declarations: views(self.declarations@) }
    }
}

impl<'a> AST<'a> {
    pub fn new(declarations: Vec<FunctionDeclaration<'a>>) -> (ast: AST<'a>)
        ensures
            ast@ == (AstModel { declarations: views(declarations@) }),
    {
        AST { declarations }
    }

    pub fn declarations(&self) -> (declarations: &[FunctionDeclaration<'a>])
        ensures
            views(declarations@) == self@.declarations,
    {
        self.declarations.as_slice()
    }
}

} // verus!

//! Statements: the declaration of a variable, and the call of a function.

use super::{Ident, IdentModel, Literal, LiteralModel, Type, TypeModel, views};
use vstd::prelude::*;

verus! {

#[derive(Debug)]
pub struct VariableDeclaration<'a> {
    var_type: Type<'a>,
    name: Ident<'a>,
    value: Literal<'a>,
}

pub struct VariableDeclarationModel {
    pub var_type: TypeModel,
    pub name: IdentModel,
    pub value: LiteralModel,
}

impl<'a> View for VariableDeclaration<'a> {
    type V = VariableDeclarationModel;

    closed spec fn view(&self) -> VariableDeclarationModel {
        VariableDeclarationModel { var_type: self.var_type@, name: self.name@, value: self.value@ }
    }
}

impl<'a> VariableDeclaration<'a> {
    pub fn var_type(&self) -> (var_type: Type<'a>)
        ensures
            var_type@ == self@.var_type,
    {
        self.var_type
    }

    pub fn name(&self) -> (name: Ident<'a>)
        ensures
            name@ == self@.name,
    {
        self.name
    }

    pub fn value(&self) -> (value: Literal<'a>)
        ensures
            value@ == self@.value,
    {
        self.value
    }

    pub fn new(var_type: Type<'a>, name: Ident<'a>, value: Literal<'a>) -> (declaration:
        VariableDeclaration<'a>)
        ensures
            declaration@ == (VariableDeclarationModel {
                var_type: var_type@,
                name: name@,
                value: value@,
            }),
    {
        VariableDeclaration { var_type, name, value }
    }
}

#[derive(Debug)]
pub struct FunctionCall<'a> {
    name: Ident<'a>,
    args: Vec<Literal<'a>>,
}

pub struct FunctionCallModel {
    pub name: IdentModel,
    pub args: Seq<LiteralModel>,
}

impl<'a> View for FunctionCall<'a> {
    type V = FunctionCallModel;

    closed spec fn view(&self) -> FunctionCallModel {
        FunctionCallModel { name: self.name@, args: views(self.args@) }
    }
}

impl<'a> FunctionCall<'a> {
    pub fn new(name: Ident<'a>, args: Vec<Literal<'a>>) -> (call: FunctionCall<'a>)
        ensures
            call@ == (FunctionCallModel { name: name@, args: views(args@) }),
    {
        FunctionCall { name, args }
    }

    pub fn name(&self) -> (name: Ident<'a>)
        ensures
            name@ == self@.name,
    {
        self.name
    }

    pub fn args(&self) -> (args: &[Literal<'a>])
        ensures
            views(args@) == self@.args,
    {
        self.args.as_slice()
    }
}

#[derive(Debug)]
pub enum Statement<'a> {
    VariableDeclaration(VariableDeclaration<'a>),
    FunctionCall(FunctionCall<'a>),
}

pub enum StatementModel {
    VariableDeclaration(VariableDeclarationModel),
    FunctionCall(FunctionCallModel),
}

impl<'a> View for Statement<'a> {
    type V = StatementModel;

    open spec fn view(&self) -> StatementModel {
        match self {
            Statement::VariableDeclaration(declaration) => StatementModel::VariableDeclaration(
                declaration@,
            ),
            Statement::FunctionCall(call) => StatementModel::FunctionCall(call@),
        }
    }
}

impl<'a> Statement<'a> {
    pub fn var_decl(val: VariableDeclaration<'a>) -> (statement: Statement<'a>)
        ensures
            statement@ == StatementModel::VariableDeclaration(val@),
    {
        Statement::VariableDeclaration(val)
    }

    pub fn function_call(val: FunctionCall<'a>) -> (statement: Statement<'a>)
        ensures
            statement@ == StatementModel::FunctionCall(val@),
    {
        Statement::FunctionCall(val)
    }
}

} // verus!

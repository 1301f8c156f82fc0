//! The grammar, as a function of the text that is still to be read.
//!
//! ```text
//! AST          := FunctionDecl* Eof
//! FunctionDecl := TypeOrVoid Ident '(' ArgList ')' '{' Stmt* '}' End
//! ArgList      := (Type Ident (',' Type Ident)*)?
//! Stmt         := FunctionCall | VarDecl
//! VarDecl      := Type Ident '=' Literal End
//! FunctionCall := Ident '(' (Literal (',' Literal)*)? ')' End
//! Type         := 'int' | Ident
//! TypeOrVoid   := Type | 'void'
//! Literal      := IntegerLiteral | StringLiteral
//! End          := LineBreak | Eof
//! ```
//!
//! Spaces and line breaks may stand before every token but the one that
//! ends a statement or a declaration. A statement that begins with an
//! identifier is a call. Each function here reads one production from the
//! head of a text and says what it yields and where reading stops; the first
//! failure ends the parse.

use super::ast::stmt::{FunctionCallModel, StatementModel, VariableDeclarationModel};
use super::ast::{
    AstModel, FunctionArgModel, FunctionDeclarationModel, IdentModel, LiteralModel, TypeModel,
    TypeOrVoidModel,
};
use super::error::{Diagnostic, Failure};
use crate::lexer::{head, lemma_head, Lexeme, TokenKind};
use crate::text::integer_value;
use vstd::prelude::*;

verus! {

/// The text after its head token.
pub open spec fn advance(s: Seq<char>) -> Seq<char> {
    match head(s) {
        Some(t) => s.skip(t.text.len() as int),
        None => s,
    }
}

/// The text from its first token on that is neither spaces nor a line break.
pub open spec fn skip_blank(s: Seq<char>) -> Seq<char>
    decreases s.len(),
{
    match head(s) {
        Some(t) => if t.is_blank() {
            proof {
                lemma_head(s);
            }
            skip_blank(s.skip(t.text.len() as int))
        } else {
            s
        },
        None => s,
    }
}

/// The first token of the text that is neither spaces nor a line break.
pub open spec fn solid(s: Seq<char>) -> Option<Lexeme> {
    head(skip_blank(s))
}

/// Where reading stands: the text from the next token on, and whether that
/// token was already taken from the lexer and is held back.
pub struct Cursor {
    pub stream: Seq<char>,
    pub peeked: bool,
}

/// What reading a production yields, and where reading stands after it.
pub struct Step<T> {
    pub result: Result<T, Failure>,
    pub cursor: Cursor,
}

impl<T> Step<T> {
    /// Whether reading ended for a cause other than the grammar: a
    /// character that begins no token, or a literal without a value.
    pub open spec fn aborts(self) -> bool {
        match self.result {
            Ok(_) => false,
            Err(Failure::Parsing(_)) => false,
            Err(_) => true,
        }
    }

    /// The same failure, for a production that this one is a part of.
    pub open spec fn failed<U>(self) -> Step<U>
        recommends
            self.result is Err,
    {
        Step {
            result: match self.result {
                Ok(_) => Err(Failure::Lex),
                Err(failure) => Err(failure),
            },
            cursor: self.cursor,
        }
    }
}

/// Reading stopped at a character that begins no token.
pub open spec fn lex_failure<T>(at: Seq<char>) -> Step<T> {
    Step { result: Err(Failure::Lex), cursor: Cursor { stream: at, peeked: false } }
}

/// The head token of `at` was consumed, with the given result.
pub open spec fn consumed<T>(at: Seq<char>, result: Result<T, Failure>) -> Step<T> {
    Step { result, cursor: Cursor { stream: advance(at), peeked: false } }
}

/// The head token of `at` was looked at and left in place, with the given result.
pub open spec fn held<T>(at: Seq<char>, result: Result<T, Failure>) -> Step<T> {
    Step { result, cursor: Cursor { stream: at, peeked: true } }
}

/// A token of kind `found` stands where the grammar accepts `expected`.
pub open spec fn mismatch<T>(found: TokenKind, expected: Seq<TokenKind>) -> Result<T, Failure> {
    Err(Failure::Parsing(Diagnostic { found, expected }))
}

/// The kinds with which a type begins.
pub open spec fn type_tokens() -> Seq<TokenKind> {
    seq![TokenKind::KeywordInt, TokenKind::Ident]
}

/// The type that a token names, if it names one.
pub open spec fn type_of(t: Lexeme) -> Option<TypeModel> {
    match t.kind {
        TokenKind::KeywordInt => Some(TypeModel::Int),
        TokenKind::Ident => Some(TypeModel::Custom { name: t.text }),
        _ => None,
    }
}

pub open spec fn is_literal(kind: TokenKind) -> bool {
    kind == TokenKind::IntegerLiteral || kind == TokenKind::StringLiteral
}

/// The value of a literal token: the number that an integer literal writes,
/// if it fits 32 bits; the text of a string literal without its first and
/// last character, if it has both.
pub open spec fn literal_of(t: Lexeme) -> Option<LiteralModel> {
    match t.kind {
        TokenKind::IntegerLiteral => match integer_value(t.text) {
            Some(value) => Some(LiteralModel::Integer(value)),
            None => None,
        },
        TokenKind::StringLiteral => if t.text.len() >= 2 {
            Some(LiteralModel::String(t.text.subrange(1, t.text.len() - 1)))
        } else {
            None
        },
        _ => None,
    }
}

/// `Type := 'int' | Ident`
pub open spec fn expect_type(s: Seq<char>) -> Step<TypeModel> {
    let at = skip_blank(s);
    match head(at) {
        None => lex_failure(at),
        Some(t) => consumed(
            at,
            match type_of(t) {
                Some(found) => Ok(found),
                None => mismatch(t.kind, type_tokens()),
            },
        ),
    }
}

/// `TypeOrVoid := Type | 'void'`
pub open spec fn expect_type_or_void(s: Seq<char>) -> Step<TypeOrVoidModel> {
    let at = skip_blank(s);
    match head(at) {
        None => lex_failure(at),
        Some(t) => consumed(
            at,
            match type_of(t) {
                Some(found) => Ok(TypeOrVoidModel::Type(found)),
                None => if t.kind == TokenKind::KeywordVoid {
                    Ok(TypeOrVoidModel::Void)
                } else {
                    mismatch(t.kind, type_tokens().push(TokenKind::KeywordVoid))
                },
            },
        ),
    }
}

/// An identifier.
pub open spec fn expect_ident(s: Seq<char>) -> Step<IdentModel> {
    let at = skip_blank(s);
    match head(at) {
        None => lex_failure(at),
        Some(t) => consumed(
            at,
            if t.kind == TokenKind::Ident {
                Ok(IdentModel { name: t.text })
            } else {
                mismatch(t.kind, seq![TokenKind::Ident])
            },
        ),
    }
}

/// A token of exactly the given kind.
pub open spec fn expect_token(s: Seq<char>, kind: TokenKind) -> Step<()> {
    let at = skip_blank(s);
    match head(at) {
        None => lex_failure(at),
        Some(t) => consumed(
            at,
            if t.kind == kind {
                Ok(())
            } else {
                mismatch(t.kind, seq![kind])
            },
        ),
    }
}

/// `Literal := IntegerLiteral | StringLiteral`. A literal without a value
/// is not consumed.
pub open spec fn expect_literal(s: Seq<char>) -> Step<LiteralModel> {
    let at = skip_blank(s);
    match head(at) {
        None => lex_failure(at),
        Some(t) => if is_literal(t.kind) {
            match literal_of(t) {
                Some(literal) => consumed(at, Ok(literal)),
                None => held(at, Err(Failure::Literal(t.kind))),
            }
        } else {
            consumed(
                at,
                mismatch(t.kind, seq![TokenKind::IntegerLiteral, TokenKind::StringLiteral]),
            )
        },
    }
}

/// `End := LineBreak | Eof`, at the head of the text as it stands: nothing
/// is skipped to find it, and any other token is left in place.
pub open spec fn expect_end(s: Seq<char>) -> Step<()> {
    match head(s) {
        None => lex_failure(s),
        Some(t) => if t.kind == TokenKind::LineBreak || t.kind == TokenKind::Eof {
            consumed(s, Ok(()))
        } else {
            held(s, mismatch(t.kind, seq![TokenKind::LineBreak, TokenKind::Eof]))
        },
    }
}

/// `VarDecl := Type Ident '=' Literal End`
pub open spec fn variable(s: Seq<char>) -> Step<VariableDeclarationModel> {
    let var_type = expect_type(s);
    if var_type.result is Err {
        var_type.failed()
    } else {
        let name = expect_ident(var_type.cursor.stream);
        if name.result is Err {
            name.failed()
        } else {
            let assign = expect_token(name.cursor.stream, TokenKind::Assign);
            if assign.result is Err {
                assign.failed()
            } else {
                let value = expect_literal(assign.cursor.stream);
                if value.result is Err {
                    value.failed()
                } else {
                    let end = expect_end(value.cursor.stream);
                    if end.result is Err {
                        end.failed()
                    } else {
                        Step {
                            result: Ok(
                                VariableDeclarationModel {
                                    var_type: var_type.result->Ok_0,
                                    name: name.result->Ok_0,
                                    value: value.result->Ok_0,
                                },
                            ),
                            cursor: end.cursor,
                        }
                    }
                }
            }
        }
    }
}

/// The literals of a call up to the closing parenthesis, which is consumed:
/// `(Literal (',' Literal)*)? ')'`. `first` says that no literal was read
/// yet, `acc` holds those that were.
pub open spec fn call_arguments(s: Seq<char>, first: bool, acc: Seq<LiteralModel>) -> Step<
    Seq<LiteralModel>,
>
    decreases s.len(),
{
    let at = skip_blank(s);
    match head(at) {
        None => lex_failure(at),
        Some(t) => if t.kind == TokenKind::ParenClose {
            consumed(at, Ok(acc))
        } else if !first && t.kind != TokenKind::Sep {
            held(at, mismatch(t.kind, seq![TokenKind::Sep, TokenKind::ParenClose]))
        } else {
            let from = if first {
                at
            } else {
                advance(at)
            };
            let literal = expect_literal(from);
            if literal.result is Err {
                literal.failed()
            } else {
                proof {
                    lemma_skip_blank_len(s);
                    lemma_advance_len(at);
                    lemma_expect_literal_len(from);
                }
                call_arguments(literal.cursor.stream, false, acc.push(literal.result->Ok_0))
            }
        },
    }
}

/// The end of a call after its literals: `End`.
pub open spec fn call_end(name: IdentModel, args: Step<Seq<LiteralModel>>) -> Step<
    FunctionCallModel,
> {
    if args.result is Err {
        args.failed()
    } else {
        let end = expect_end(args.cursor.stream);
        if end.result is Err {
            end.failed()
        } else {
            Step {
                result: Ok(FunctionCallModel { name, args: args.result->Ok_0 }),
                cursor: end.cursor,
            }
        }
    }
}

/// `FunctionCall := Ident '(' (Literal (',' Literal)*)? ')' End`
pub open spec fn call(s: Seq<char>) -> Step<FunctionCallModel> {
    let name = expect_ident(s);
    if name.result is Err {
        name.failed()
    } else {
        let open = expect_token(name.cursor.stream, TokenKind::ParenOpen);
        if open.result is Err {
            open.failed()
        } else {
            call_end(name.result->Ok_0, call_arguments(open.cursor.stream, true, Seq::empty()))
        }
    }
}

/// `Stmt := FunctionCall | VarDecl`: a call where the next token is an
/// identifier, else the declaration of a variable.
pub open spec fn statement(s: Seq<char>) -> Step<StatementModel> {
    let at = skip_blank(s);
    match head(at) {
        None => lex_failure(at),
        Some(t) => if t.kind == TokenKind::Ident {
            let call = call(at);
            match call.result {
                Ok(call_model) => Step {
                    result: Ok(StatementModel::FunctionCall(call_model)),
                    cursor: call.cursor,
                },
                Err(_) => call.failed(),
            }
        } else {
            let variable = variable(at);
            match variable.result {
                Ok(variable_model) => Step {
                    result: Ok(StatementModel::VariableDeclaration(variable_model)),
                    cursor: variable.cursor,
                },
                Err(_) => variable.failed(),
            }
        },
    }
}

/// The arguments of a declaration up to the closing parenthesis, which is
/// consumed: `(Type Ident (',' Type Ident)*)? ')'`.
pub open spec fn arguments(s: Seq<char>, first: bool, acc: Seq<FunctionArgModel>) -> Step<
    Seq<FunctionArgModel>,
>
    decreases s.len(),
{
    let at = skip_blank(s);
    match head(at) {
        None => lex_failure(at),
        Some(t) => if t.kind == TokenKind::ParenClose {
            consumed(at, Ok(acc))
        } else if !first && t.kind != TokenKind::Sep {
            held(at, mismatch(t.kind, seq![TokenKind::Sep, TokenKind::ParenClose]))
        } else {
            let from = if first {
                at
            } else {
                advance(at)
            };
            let arg_type = expect_type(from);
            if arg_type.result is Err {
                arg_type.failed()
            } else {
                let name = expect_ident(arg_type.cursor.stream);
                if name.result is Err {
                    name.failed()
                } else {
                    proof {
                        lemma_skip_blank_len(s);
                        lemma_advance_len(at);
                        lemma_expect_type_len(from);
                        lemma_expect_ident_len(arg_type.cursor.stream);
                    }
                    arguments(
                        name.cursor.stream,
                        false,
                        acc.push(
                            FunctionArgModel {
                                arg_type: arg_type.result->Ok_0,
                                name: name.result->Ok_0,
                            },
                        ),
                    )
                }
            }
        },
    }
}

/// The statements of a body up to the closing brace, which is consumed:
/// `Stmt* '}'`.
pub open spec fn block(s: Seq<char>, acc: Seq<StatementModel>) -> Step<Seq<StatementModel>>
    decreases s.len(),
{
    let at = skip_blank(s);
    match head(at) {
        None => lex_failure(at),
        Some(t) => if t.kind == TokenKind::BraceClose {
            consumed(at, Ok(acc))
        } else {
            let statement = statement(at);
            if statement.result is Err {
                statement.failed()
            } else {
                proof {
                    lemma_skip_blank_len(s);
                    lemma_statement_len(at);
                }
                block(statement.cursor.stream, acc.push(statement.result->Ok_0))
            }
        },
    }
}

/// The rest of a declaration after its arguments: `'{' Stmt* '}' End`.
pub open spec fn function_body(
    return_type: TypeOrVoidModel,
    name: IdentModel,
    args: Seq<FunctionArgModel>,
    s: Seq<char>,
) -> Step<FunctionDeclarationModel> {
    let open = expect_token(s, TokenKind::BraceOpen);
    if open.result is Err {
        open.failed()
    } else {
        function_end(return_type, name, args, block(open.cursor.stream, Seq::empty()))
    }
}

/// The end of a declaration after its statements: `End`.
pub open spec fn function_end(
    return_type: TypeOrVoidModel,
    name: IdentModel,
    args: Seq<FunctionArgModel>,
    stmts: Step<Seq<StatementModel>>,
) -> Step<FunctionDeclarationModel> {
    if stmts.result is Err {
        stmts.failed()
    } else {
        let end = expect_end(stmts.cursor.stream);
        if end.result is Err {
            end.failed()
        } else {
            Step {
                result: Ok(
                    FunctionDeclarationModel {
                        return_type,
                        name,
                        args,
                        stmts: stmts.result->Ok_0,
                    },
                ),
                cursor: end.cursor,
            }
        }
    }
}

/// The rest of a declaration after the opening parenthesis, given what
/// reading its arguments yields.
pub open spec fn function_rest(
    return_type: TypeOrVoidModel,
    name: IdentModel,
    args: Step<Seq<FunctionArgModel>>,
) -> Step<FunctionDeclarationModel> {
    if args.result is Err {
        args.failed()
    } else {
        function_body(return_type, name, args.result->Ok_0, args.cursor.stream)
    }
}

/// `FunctionDecl := TypeOrVoid Ident '(' ArgList ')' '{' Stmt* '}' End`
pub open spec fn function(s: Seq<char>) -> Step<FunctionDeclarationModel> {
    let return_type = expect_type_or_void(s);
    if return_type.result is Err {
        return_type.failed()
    } else {
        let name = expect_ident(return_type.cursor.stream);
        if name.result is Err {
            name.failed()
        } else {
            let open = expect_token(name.cursor.stream, TokenKind::ParenOpen);
            if open.result is Err {
                open.failed()
            } else {
                function_rest(
                    return_type.result->Ok_0,
                    name.result->Ok_0,
                    arguments(open.cursor.stream, true, Seq::empty()),
                )
            }
        }
    }
}

/// The declarations of a text up to its end, which is looked at and left in
/// place: `FunctionDecl* Eof`. `acc` holds those that were read.
pub open spec fn declarations(s: Seq<char>, acc: Seq<FunctionDeclarationModel>) -> Step<AstModel>
    decreases s.len(),
{
    let at = skip_blank(s);
    match head(at) {
        None => lex_failure(at),
        Some(t) => if t.kind == TokenKind::Eof {
            held(at, Ok(AstModel { declarations: acc }))
        } else {
            let declaration = function(at);
            if declaration.result is Err {
                declaration.failed()
            } else {
                proof {
                    lemma_skip_blank_len(s);
                    lemma_function_len(at);
                }
                declarations(declaration.cursor.stream, acc.push(declaration.result->Ok_0))
            }
        },
    }
}

/// `AST := FunctionDecl* Eof`
pub open spec fn program(s: Seq<char>) -> Step<AstModel> {
    declarations(s, Seq::empty())
}

/// After skipping there is nothing left to skip: the token that follows is
/// neither spaces nor a line break.
pub proof fn lemma_skip_blank(s: Seq<char>)
    ensures
        skip_blank(skip_blank(s)) == skip_blank(s),
        solid(s) matches Some(t) ==> !t.is_blank(),
    decreases s.len(),
{
    lemma_head(s);
    match head(s) {
        Some(t) => {
            if t.is_blank() {
                lemma_skip_blank(s.skip(t.text.len() as int));
            }
        },
        None => {},
    }
}

/// Skipping blank tokens leaves a text that is no longer.
pub proof fn lemma_skip_blank_len(s: Seq<char>)
    ensures
        skip_blank(s).len() <= s.len(),
    decreases s.len(),
{
    lemma_head(s);
    match head(s) {
        Some(t) => {
            if t.is_blank() {
                lemma_skip_blank_len(s.skip(t.text.len() as int));
            }
        },
        None => {},
    }
}

/// Dropping the head token leaves a text that is no longer, and a shorter
/// one unless the text is at its end or fails to begin a token.
pub proof fn lemma_advance_len(s: Seq<char>)
    ensures
        advance(s).len() <= s.len(),
        head(s) matches Some(t) && t.kind != TokenKind::Eof ==> advance(s).len() < s.len(),
{
    lemma_head(s);
}

pub proof fn lemma_expect_type_len(s: Seq<char>)
    ensures
        expect_type(s).cursor.stream.len() <= s.len(),
        expect_type(s).result is Ok ==> expect_type(s).cursor.stream.len() < s.len(),
{
    lemma_skip_blank_len(s);
    lemma_advance_len(skip_blank(s));
}

pub proof fn lemma_expect_type_or_void_len(s: Seq<char>)
    ensures
        expect_type_or_void(s).cursor.stream.len() <= s.len(),
        expect_type_or_void(s).result is Ok ==> expect_type_or_void(s).cursor.stream.len()
            < s.len(),
{
    lemma_skip_blank_len(s);
    lemma_advance_len(skip_blank(s));
}

pub proof fn lemma_expect_ident_len(s: Seq<char>)
    ensures
        expect_ident(s).cursor.stream.len() <= s.len(),
        expect_ident(s).result is Ok ==> expect_ident(s).cursor.stream.len() < s.len(),
{
    lemma_skip_blank_len(s);
    lemma_advance_len(skip_blank(s));
}

pub proof fn lemma_expect_token_len(s: Seq<char>, kind: TokenKind)
    ensures
        expect_token(s, kind).cursor.stream.len() <= s.len(),
{
    lemma_skip_blank_len(s);
    lemma_advance_len(skip_blank(s));
}

pub proof fn lemma_expect_literal_len(s: Seq<char>)
    ensures
        expect_literal(s).cursor.stream.len() <= s.len(),
        expect_literal(s).result is Ok ==> expect_literal(s).cursor.stream.len() < s.len(),
{
    lemma_skip_blank_len(s);
    lemma_advance_len(skip_blank(s));
}

pub proof fn lemma_expect_end_len(s: Seq<char>)
    ensures
        expect_end(s).cursor.stream.len() <= s.len(),
{
    lemma_advance_len(s);
}

pub proof fn lemma_call_arguments_len(s: Seq<char>, first: bool, acc: Seq<LiteralModel>)
    ensures
        call_arguments(s, first, acc).cursor.stream.len() <= s.len(),
    decreases s.len(),
{
    let at = skip_blank(s);
    lemma_skip_blank_len(s);
    lemma_advance_len(at);
    match head(at) {
        None => {},
        Some(t) => {
            if t.kind != TokenKind::ParenClose && (first || t.kind == TokenKind::Sep) {
                let from = if first {
                    at
                } else {
                    advance(at)
                };
                let literal = expect_literal(from);
                lemma_expect_literal_len(from);
                if literal.result is Ok {
                    lemma_call_arguments_len(
                        literal.cursor.stream,
                        false,
                        acc.push(literal.result->Ok_0),
                    );
                }
            }
        },
    }
}

pub proof fn lemma_variable_len(s: Seq<char>)
    ensures
        variable(s).cursor.stream.len() <= s.len(),
        variable(s).result is Ok ==> variable(s).cursor.stream.len() < s.len(),
{
    let var_type = expect_type(s);
    lemma_expect_type_len(s);
    if var_type.result is Ok {
        let name = expect_ident(var_type.cursor.stream);
        lemma_expect_ident_len(var_type.cursor.stream);
        if name.result is Ok {
            let assign = expect_token(name.cursor.stream, TokenKind::Assign);
            lemma_expect_token_len(name.cursor.stream, TokenKind::Assign);
            if assign.result is Ok {
                let value = expect_literal(assign.cursor.stream);
                lemma_expect_literal_len(assign.cursor.stream);
                if value.result is Ok {
                    lemma_expect_end_len(value.cursor.stream);
                }
            }
        }
    }
}

pub proof fn lemma_call_len(s: Seq<char>)
    ensures
        call(s).cursor.stream.len() <= s.len(),
        call(s).result is Ok ==> call(s).cursor.stream.len() < s.len(),
{
    let name = expect_ident(s);
    lemma_expect_ident_len(s);
    if name.result is Ok {
        let open = expect_token(name.cursor.stream, TokenKind::ParenOpen);
        lemma_expect_token_len(name.cursor.stream, TokenKind::ParenOpen);
        if open.result is Ok {
            let args = call_arguments(open.cursor.stream, true, Seq::empty());
            lemma_call_arguments_len(open.cursor.stream, true, Seq::empty());
            if args.result is Ok {
                lemma_expect_end_len(args.cursor.stream);
            }
        }
    }
}

pub proof fn lemma_statement_len(s: Seq<char>)
    ensures
        statement(s).cursor.stream.len() <= s.len(),
        statement(s).result is Ok ==> statement(s).cursor.stream.len() < s.len(),
{
    let at = skip_blank(s);
    lemma_skip_blank_len(s);
    lemma_call_len(at);
    lemma_variable_len(at);
}

pub proof fn lemma_arguments_len(s: Seq<char>, first: bool, acc: Seq<FunctionArgModel>)
    ensures
        arguments(s, first, acc).cursor.stream.len() <= s.len(),
    decreases s.len(),
{
    let at = skip_blank(s);
    lemma_skip_blank_len(s);
    lemma_advance_len(at);
    match head(at) {
        None => {},
        Some(t) => {
            if t.kind != TokenKind::ParenClose && (first || t.kind == TokenKind::Sep) {
                let from = if first {
                    at
                } else {
                    advance(at)
                };
                let arg_type = expect_type(from);
                lemma_expect_type_len(from);
                if arg_type.result is Ok {
                    let name = expect_ident(arg_type.cursor.stream);
                    lemma_expect_ident_len(arg_type.cursor.stream);
                    if name.result is Ok {
                        lemma_arguments_len(
                            name.cursor.stream,
                            false,
                            acc.push(
                                FunctionArgModel {
                                    arg_type: arg_type.result->Ok_0,
                                    name: name.result->Ok_0,
                                },
                            ),
                        );
                    }
                }
            }
        },
    }
}

pub proof fn lemma_block_len(s: Seq<char>, acc: Seq<StatementModel>)
    ensures
        block(s, acc).cursor.stream.len() <= s.len(),
    decreases s.len(),
{
    let at = skip_blank(s);
    lemma_skip_blank_len(s);
    lemma_advance_len(at);
    match head(at) {
        None => {},
        Some(t) => {
            if t.kind != TokenKind::BraceClose {
                let statement = statement(at);
                lemma_statement_len(at);
                if statement.result is Ok {
                    lemma_block_len(statement.cursor.stream, acc.push(statement.result->Ok_0));
                }
            }
        },
    }
}

pub proof fn lemma_function_len(s: Seq<char>)
    ensures
        function(s).cursor.stream.len() <= s.len(),
        function(s).result is Ok ==> function(s).cursor.stream.len() < s.len(),
{
    let return_type = expect_type_or_void(s);
    lemma_expect_type_or_void_len(s);
    if return_type.result is Ok {
        let name = expect_ident(return_type.cursor.stream);
        lemma_expect_ident_len(return_type.cursor.stream);
        if name.result is Ok {
            let open = expect_token(name.cursor.stream, TokenKind::ParenOpen);
            lemma_expect_token_len(name.cursor.stream, TokenKind::ParenOpen);
            if open.result is Ok {
                let args = arguments(open.cursor.stream, true, Seq::empty());
                lemma_arguments_len(open.cursor.stream, true, Seq::empty());
                if args.result is Ok {
                    let brace = expect_token(args.cursor.stream, TokenKind::BraceOpen);
                    lemma_expect_token_len(args.cursor.stream, TokenKind::BraceOpen);
                    if brace.result is Ok {
                        let stmts = block(brace.cursor.stream, Seq::empty());
                        lemma_block_len(brace.cursor.stream, Seq::empty());
                        if stmts.result is Ok {
                            lemma_expect_end_len(stmts.cursor.stream);
                        }
                    }
                }
            }
        }
    }
}

} // verus!

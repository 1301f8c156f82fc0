//! The code generator: renders the `void main` of a tree as a C program
//! that prints. It renders one shape of tree only, `supports` says which.

use crate::parsing::ast::stmt::{Statement, StatementModel};
use crate::parsing::ast::{
    views, AstModel, FunctionDeclaration, FunctionDeclarationModel, Literal, TypeOrVoid, AST,
};
use vstd::pervasive::unreached;
use vstd::prelude::*;
use vstd::string::*;

verus! {

/// Whether the declaration is the entry point: `void main`.
pub open spec fn is_entry(declaration: FunctionDeclarationModel) -> bool {
    declaration.name.name == "main"@ && declaration.return_type is Void
}

/// The first entry point among the declarations.
pub open spec fn entry(declarations: Seq<FunctionDeclarationModel>) -> Option<
    FunctionDeclarationModel,
>
    decreases declarations.len(),
{
    if declarations.len() == 0 {
        None
    } else if is_entry(declarations[0]) {
        Some(declarations[0])
    } else {
        entry(declarations.drop_first())
    }
}

/// The one statement that can be rendered: a call of `print` with a single
/// string.
pub open spec fn is_print(statement: StatementModel) -> bool {
    match statement {
        StatementModel::FunctionCall(call) => {
            &&& call.name.name == "print"@
            &&& call.args.len() == 1
            &&& call.args[0] is String
        },
        StatementModel::VariableDeclaration(_) => false,
    }
}

/// Whether the tree can be rendered: it has an entry point, and the first
/// such holds nothing but calls of `print` with a single string.
pub open spec fn supported(tree: AstModel) -> bool {
    match entry(tree.declarations) {
        Some(main) => forall|i: int| 0 <= i < main.stmts.len() ==> is_print(#[trigger] main.stmts[i]),
        None => false,
    }
}

/// `count` spaces.
pub open spec fn spaces(count: nat) -> Seq<char> {
    Seq::new(count, |i: int| ' ')
}

/// The line that renders a statement.
pub open spec fn statement_code(statement: StatementModel) -> Seq<char>
    recommends
        is_print(statement),
{
    "    printf(\""@ + statement->FunctionCall_0.args[0]->String_0 + "\");\n"@
}

/// The lines that render the statements, in order.
pub open spec fn body_code(statements: Seq<StatementModel>) -> Seq<char>
    decreases statements.len(),
{
    if statements.len() == 0 {
        Seq::empty()
    } else {
        body_code(statements.drop_last()) + statement_code(statements.last())
    }
}

/// The C function that renders the entry point.
pub open spec fn main_code(main: FunctionDeclarationModel) -> Seq<char> {
    "int main() {\n"@ + body_code(main.stmts) + "\n    return 0;\n}\n"@
}

/// The C program that renders the tree.
pub open spec fn c_code(tree: AstModel) -> Seq<char>
    recommends
        supported(tree),
{
    "#include <stdio.h>\n\n"@ + main_code(entry(tree.declarations)->Some_0)
}

struct CodeBuf {
    content: String,
}

impl CodeBuf {
    fn new() -> (buf: CodeBuf)
        ensures
            buf.content@ == Seq::<char>::empty(),
    {
        CodeBuf { content: String::new() }
    }

    fn push_function_decl(&mut self, return_type: &str, name: &str)
        ensures
            final(self).content@ == old(self).content@ + return_type@ + " "@ + name@ + "()"@,
    {
        self.content.append(return_type);
        self.content.append(" ");
        self.content.append(name);
        self.content.append("()");
    }

    fn push_spaces(&mut self, count: usize)
        ensures
            final(self).content@ == old(self).content@ + spaces(count as nat),
    {
        let mut i: usize = 0;
        proof {
            reveal_strlit(" ");
            assert(self.content@ =~= old(self).content@ + spaces(0));
        }
        while i < count
            invariant
                i <= count,
                " "@ == seq![' '],
                self.content@ == old(self).content@ + spaces(i as nat),
            decreases count - i,
        {
            self.content.append(" ");
            proof {
                assert(" "@ =~= seq![' ']);
                assert(self.content@ =~= old(self).content@ + spaces((i + 1) as nat));
            }
            i += 1;
        }
    }

    fn push_code_block_open(&mut self)
        ensures
            final(self).content@ == old(self).content@ + "{"@,
    {
        self.content.append("{");
    }

    fn push_code_block_close(&mut self)
        ensures
            final(self).content@ == old(self).content@ + "}"@,
    {
        self.content.append("}");
    }

    fn push_paren_open(&mut self)
        ensures
            final(self).content@ == old(self).content@ + "("@,
    {
        self.content.append("(");
    }

    fn push_paren_close(&mut self)
        ensures
            final(self).content@ == old(self).content@ + ")"@,
    {
        self.content.append(")");
    }

    fn push_semicolon(&mut self)
        ensures
            final(self).content@ == old(self).content@ + ";"@,
    {
        self.content.append(";");
    }

    fn push_linebreak(&mut self)
        ensures
            final(self).content@ == old(self).content@ + "\n"@,
    {
        self.content.append("\n");
    }

    fn push_ident(&mut self, ident: &str)
        ensures
            final(self).content@ == old(self).content@ + ident@,
    {
        self.content.append(ident);
    }

    fn push_string_literal(&mut self, string: &str)
        ensures
            final(self).content@ == old(self).content@ + "\""@ + string@ + "\""@,
    {
        self.content.append("\"");
        self.content.append(string);
        self.content.append("\"");
    }

    fn push_function_return(&mut self, value: &str)
        ensures
            final(self).content@ == old(self).content@ + "return "@ + value@ + ";"@,
    {
        self.content.append("return ");
        self.content.append(value);
        self.content.append(";");
    }

    fn push_external_include(&mut self, what: &str)
        ensures
            final(self).content@ == old(self).content@ + "#include <"@ + what@ + ">"@,
    {
        self.content.append("#include <");
        self.content.append(what);
        self.content.append(">");
    }

    fn into_string(self) -> (content: String)
        ensures
            content@ == self.content@,
    {
        self.content
    }
}

proof fn lemma_main_open()
    ensures
        "int"@ + " "@ + "main"@ + "()"@ + spaces(1) + "{"@ + "\n"@ == "int main() {\n"@,
{
    reveal_strlit("int");
    reveal_strlit(" ");
    reveal_strlit("main");
    reveal_strlit("()");
    reveal_strlit("{");
    reveal_strlit("\n");
    reveal_strlit("int main() {\n");
    assert("int"@ + " "@ + "main"@ + "()"@ + spaces(1) + "{"@ + "\n"@ =~= "int main() {\n"@);
}

proof fn lemma_statement_line(text: Seq<char>)
    ensures
        spaces(4) + "printf"@ + "("@ + "\""@ + text + "\""@ + ")"@ + ";"@ + "\n"@ == "    printf(\""@
            + text + "\");\n"@,
{
    reveal_strlit("printf");
    reveal_strlit("(");
    reveal_strlit("\"");
    reveal_strlit(")");
    reveal_strlit(";");
    reveal_strlit("\n");
    reveal_strlit("    printf(\"");
    reveal_strlit("\");\n");
    assert(spaces(4) + "printf"@ + "("@ + "\""@ =~= "    printf(\""@);
    assert("\""@ + ")"@ + ";"@ + "\n"@ =~= "\");\n"@);
    assert(spaces(4) + "printf"@ + "("@ + "\""@ + text + "\""@ + ")"@ + ";"@ + "\n"@ =~= (spaces(4)
        + "printf"@ + "("@ + "\""@) + text + ("\""@ + ")"@ + ";"@ + "\n"@));
}

proof fn lemma_main_close()
    ensures
        "\n"@ + spaces(4) + "return "@ + "0"@ + ";"@ + "\n"@ + "}"@ + "\n"@
            == "\n    return 0;\n}\n"@,
{
    reveal_strlit("\n");
    reveal_strlit("return ");
    reveal_strlit("0");
    reveal_strlit(";");
    reveal_strlit("}");
    reveal_strlit("\n    return 0;\n}\n");
    assert("\n"@ + spaces(4) + "return "@ + "0"@ + ";"@ + "\n"@ + "}"@ + "\n"@
        =~= "\n    return 0;\n}\n"@);
}

proof fn lemma_prelude()
    ensures
        "#include <"@ + "stdio.h"@ + ">"@ + "\n"@ + "\n"@ == "#include <stdio.h>\n\n"@,
{
    reveal_strlit("#include <");
    reveal_strlit("stdio.h");
    reveal_strlit(">");
    reveal_strlit("\n");
    reveal_strlit("#include <stdio.h>\n\n");
    assert("#include <"@ + "stdio.h"@ + ">"@ + "\n"@ + "\n"@ =~= "#include <stdio.h>\n\n"@);
}

/// Whether the statement is a call of `print` with a single string.
fn prints(stmt: &Statement) -> (ok: bool)
    ensures
        ok == is_print(stmt@),
{
    match stmt {
        Statement::VariableDeclaration(_) => false,
        Statement::FunctionCall(func_call) => {
            let args = func_call.args();
            assert(views(args@).len() == args@.len());
            if func_call.name() != "print" || args.len() != 1 {
                false
            } else {
                assert(views(args@)[0] == args@[0]@);
                match args[0] {
                    Literal::String(_) => true,
                    Literal::Integer(_) => false,
                }
            }
        },
    }
}

/// Whether the declaration is `void main`.
fn is_main(decl: &FunctionDeclaration) -> (ok: bool)
    ensures
        ok == is_entry(decl@),
{
    decl.name() == "main" && matches!(decl.return_type(), TypeOrVoid::Void)
}

/// The first `void main` of the tree.
fn find_main<'t, 'a>(tree: &'t AST<'a>) -> (found: Option<&'t FunctionDeclaration<'a>>)
    ensures
        match found {
            Some(decl) => entry(tree@.declarations) == Some(decl@),
            None => entry(tree@.declarations) is None,
        },
{
    let declarations = tree.declarations();
    let mut i: usize = 0;
    let ghost all = views(declarations@);
    assert(all.skip(0) =~= all);
    while i < declarations.len()
        invariant
            i <= declarations@.len(),
            all == views(declarations@),
            all == tree@.declarations,
            entry(all) == entry(all.skip(i as int)),
        decreases declarations@.len() - i,
    {
        let decl = &declarations[i];
        assert(all.skip(i as int)[0] == decl@);
        if is_main(decl) {
            return Some(decl);
        }
        assert(all.skip(i as int).drop_first() =~= all.skip(i + 1));
        i += 1;
    }
    None
}

/// Whether `generate_c_code` can render the tree.
pub fn supports(tree: &AST) -> (ok: bool)
    ensures
        ok == supported(tree@),
{
    match find_main(tree) {
        None => false,
        Some(decl) => {
            let stmts = decl.stmts();
            let mut i: usize = 0;
            while i < stmts.len()
                invariant
                    i <= stmts@.len(),
                    views(stmts@) == decl@.stmts,
                    entry(tree@.declarations) == Some(decl@),
                    forall|j: int| 0 <= j < i ==> is_print(#[trigger] decl@.stmts[j]),
                decreases stmts@.len() - i,
            {
                assert(views(stmts@)[i as int] == stmts@[i as int]@);
                if !prints(&stmts[i]) {
                    assert(!is_print(decl@.stmts[i as int]));
                    return false;
                }
                i += 1;
            }
            assert(views(stmts@).len() == stmts@.len());
            true
        },
    }
}

fn generate_main_function(code: &mut CodeBuf, decl: &FunctionDeclaration)
    requires
        forall|i: int| 0 <= i < decl@.stmts.len() ==> is_print(#[trigger] decl@.stmts[i]),
    ensures
        final(code).content@ == old(code).content@ + main_code(decl@),
{
    let ghost start = code.content@;
    code.push_function_decl("int", "main");
    code.push_spaces(1);
    code.push_code_block_open();
    code.push_linebreak();
    proof {
        lemma_main_open();
        assert(code.content@ =~= start + ("int"@ + " "@ + "main"@ + "()"@ + spaces(1) + "{"@
            + "\n"@));
    }

    let stmts = decl.stmts();
    let ghost models = views(stmts@);
    let ghost opened = code.content@;
    let mut i: usize = 0;
    proof {
        assert(models.take(0) =~= Seq::<StatementModel>::empty());
        assert(opened + body_code(models.take(0)) =~= opened);
    }
    while i < stmts.len()
        invariant
            i <= stmts@.len(),
            models == views(stmts@),
            models == decl@.stmts,
            forall|j: int| 0 <= j < models.len() ==> is_print(#[trigger] models[j]),
            code.content@ == opened + body_code(models.take(i as int)),
        decreases stmts@.len() - i,
    {
        let ghost before = code.content@;
        assert(models[i as int] == stmts@[i as int]@);
        assert(is_print(models[i as int]));
        code.push_spaces(4);
        match &stmts[i] {
            Statement::VariableDeclaration(_) => unreached(),
            Statement::FunctionCall(func_call) => {
                let args = func_call.args();
                assert(views(args@).len() == args@.len());
                assert(views(args@)[0] == args@[0]@);
                let string = match args[0] {
                    Literal::String(s) => s,
                    Literal::Integer(_) => unreached(),
                };

                code.push_ident("printf");
                code.push_paren_open();
                code.push_string_literal(string);
                code.push_paren_close();
                code.push_semicolon();
            },
        }
        code.push_linebreak();
        proof {
            let text = models[i as int]->FunctionCall_0.args[0]->String_0;
            lemma_statement_line(text);
            assert(code.content@ =~= before + (spaces(4) + "printf"@ + "("@ + "\""@ + text + "\""@
                + ")"@ + ";"@ + "\n"@));
            let next = models.take(i + 1);
            assert(next.drop_last() =~= models.take(i as int));
            assert(next.last() == models[i as int]);
            assert(code.content@ =~= opened + body_code(next));
        }
        i += 1;
    }
    proof {
        assert(models.take(i as int) =~= models);
    }

    let ghost filled = code.content@;
    code.push_linebreak();
    code.push_spaces(4);
    code.push_function_return("0");
    code.push_linebreak();
    code.push_code_block_close();
    code.push_linebreak();
    proof {
        lemma_main_close();
        assert(code.content@ =~= filled + ("\n"@ + spaces(4) + "return "@ + "0"@ + ";"@ + "\n"@
            + "}"@ + "\n"@));
        assert(code.content@ =~= start + main_code(decl@));
    }
}

/// Renders the tree as a C program: the include of `stdio.h`, and a `main`
/// that prints the strings of the first `void main` of the tree, one call
/// of `printf` for each.
pub fn generate_c_code(tree: &AST) -> (code: String)
    requires
        supported(tree@),
    ensures
        code@ == c_code(tree@),
{
    let mut buf = CodeBuf::new();
    buf.push_external_include("stdio.h");
    buf.push_linebreak();
    buf.push_linebreak();
    proof {
        lemma_prelude();
        assert(buf.content@ =~= "#include <"@ + "stdio.h"@ + ">"@ + "\n"@ + "\n"@);
    }

    match find_main(tree) {
        Some(decl) => generate_main_function(&mut buf, decl),
        None => unreached(),
    }

    return buf.into_string();
}

/// Renders the tree where it can be rendered.
pub fn try_generate_c_code(tree: &AST) -> (code: Option<String>)
    ensures
        match code {
            Some(code) => supported(tree@) && code@ == c_code(tree@),
            None => !supported(tree@),
        },
{
    if supports(tree) {
        Some(generate_c_code(tree))
    } else {
        None
    }
}

} // verus!

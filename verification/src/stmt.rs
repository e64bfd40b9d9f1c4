//! The statement translator.
use crate::ast::{Expr, Stmt};
use crate::emitter::{lemma_write_chain, Writer, WriterView};
use crate::expr::{
    expr_as, expr_as_text, expr_fault, expr_text, gen_expr, ExprFault, Fault, Type,
};
use crate::scope::{var_path, var_path_text, Locals};
use vstd::prelude::*;

verus! {

/// The local names after `stmt`, where `locals` were local before it.
pub open spec fn stmt_locals(stmt: Stmt, locals: Set<Seq<char>>) -> Set<Seq<char>> {
    match stmt {
        Stmt::Declare(name, _) => locals.insert(name@),
        _ => locals,
    }
}

/// The script text of `stmt`, line break included, where `locals` are the
/// local names before it. A declaration binds a local variable, and its own
/// name is local in its value already. An assignment goes to wherever the
/// name resolves. Declared and assigned values are taken as numbers.
pub open spec fn stmt_text(stmt: Stmt, locals: Set<Seq<char>>) -> Seq<char> {
    match stmt {
        Stmt::Declare(name, value) => "let l_"@ + name@ + " = "@ + expr_as_text(
            Type::Num,
            value,
            locals.insert(name@),
            false,
        ) + ";\n"@,
        Stmt::Assign(name, value) => var_path_text(name@, locals) + " = "@ + expr_as_text(
            Type::Num,
            value,
            locals,
            false,
        ) + ";\n"@,
        Stmt::Expr(e) => expr_text(e, locals, false) + ";\n"@,
    }
}

/// The fault of `stmt`, if it has one: that of its expression.
pub open spec fn stmt_fault(stmt: Stmt) -> Option<Fault> {
    match stmt {
        Stmt::Declare(_, value) => expr_fault(value),
        Stmt::Assign(_, value) => expr_fault(value),
        Stmt::Expr(e) => expr_fault(e),
    }
}

/// A statement ends its line.
pub proof fn lemma_stmt_text_ends_line(stmt: Stmt, locals: Set<Seq<char>>)
    ensures
        stmt_text(stmt, locals).len() > 0,
        stmt_text(stmt, locals).last() == '\n',
{
    reveal_strlit(";\n");
}

/// Translates `stmt` and writes it to `w`. A declaration makes its name
/// local in `locals`.
///
/// On a fault nothing is promised of what `w` and `locals` hold.
pub fn gen_stmt(w: &mut Writer, stmt: &Stmt, locals: &mut Locals) -> (r: Result<(), ExprFault>)
    ensures
        match r {
            Ok(_) => {
                &&& stmt_fault(*stmt) is None
                &&& final(w)@ == old(w)@.write(stmt_text(*stmt, old(locals)@))
                &&& final(locals)@ == stmt_locals(*stmt, old(locals)@)
            },
            Err(e) => stmt_fault(*stmt) == Some(e@),
        },
{
    broadcast use lemma_write_chain;

    match stmt {
        Stmt::Declare(name, value) => {
            locals.insert(name.as_str());
            let text = expr_as(Type::Num, value, locals, false)?;
            w.write_str("let l_");
            w.write_str(name.as_str());
            w.write_str(" = ");
            w.write_str(text.as_str());
            w.write_str(";\n");
        },
        Stmt::Assign(name, value) => {
            let path = var_path(name.as_str(), locals);
            let text = expr_as(Type::Num, value, locals, false)?;
            w.write_str(path.as_str());
            w.write_str(" = ");
            w.write_str(text.as_str());
            w.write_str(";\n");
        },
        Stmt::Expr(e) => {
            gen_expr(w, e, locals, false)?;
            w.write_str(";\n");
        },
    }
    Ok(())
}

} // verus!

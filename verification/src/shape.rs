//! What the text of single nodes looks like, and which names a list of nodes
//! leaves local. Each statement here follows from the definitions in
//! [`crate::structure`]; it is spelled out and proved for the reader.
use crate::ast::{Block, Control, Expr, Stmt, Struct};
use crate::emitter::{laid_out, line};
use crate::expr::{expr_as_text, under, Type};
use crate::literal::decimal;
use crate::scope::is_debug_access_variable;
use crate::seqs::{lemma_concat_empty, lemma_push_last};
use crate::stmt::{stmt_locals, stmt_text};
use crate::structure::{
    body_fault, body_locals, body_text, delay_of, is_delay, stmts_locals, stmts_text,
    struct_fault, struct_locals, struct_text, timeout_line, while_line,
};
use vstd::prelude::*;

verus! {

/// A list of one node is that node.
pub proof fn lemma_body_of_one(node: Struct, locals: Set<Seq<char>>, depth: nat)
    ensures
        body_text(seq![node], locals, depth) == struct_text(node, locals, depth),
        body_locals(seq![node], locals) == struct_locals(node, locals),
        body_fault(seq![node]) == under(0, struct_fault(node)),
{
    reveal(body_locals);
    let none = Seq::<Struct>::empty();
    lemma_push_last(none, node);
    assert(seq![node] =~= none.push(node));
    assert(body_text(none, locals, depth) == Seq::<char>::empty());
    assert(body_locals(none, locals) == locals);
    assert(body_fault(none) is None);
    lemma_concat_empty(struct_text(node, locals, depth));
}

/// The statements of a list with one more statement behind them: the text
/// of the list, then the new statement, which sees the names that the list
/// has made local.
pub proof fn lemma_stmts_one_more(
    stmts: Seq<Stmt>,
    stmt: Stmt,
    locals: Set<Seq<char>>,
    depth: nat,
)
    ensures
        stmts_text(Seq::<Stmt>::empty(), locals, depth) == Seq::<char>::empty(),
        stmts_text(stmts.push(stmt), locals, depth) == stmts_text(stmts, locals, depth) + laid_out(
            stmt_text(stmt, stmts_locals(stmts, locals)),
            depth,
        ),
        stmts_locals(stmts.push(stmt), locals) == stmt_locals(stmt, stmts_locals(stmts, locals)),
{
    reveal(stmts_locals);
    lemma_push_last(stmts, stmt);
}

/// A node whose condition is a literal above zero, without guard and
/// diagnostic line: one line that waits for the timeout of the node, or for
/// nothing if it has none. The text is the same whatever the literal, its
/// radix and the nodes inside; no loop is written, none of the nested nodes
/// is translated, and no name becomes local.
pub proof fn lemma_delay_for_any_literal(c: Control, locals: Set<Seq<char>>, depth: nat)
    requires
        is_delay(c.while_cond),
        c.if_cond is None,
        c.info is None,
    ensures
        body_text(seq![Struct::Control(c)], locals, depth) == line(
            "ctx.sleep("@ + decimal(delay_of(c.timeout) as nat) + ");"@,
            depth,
        ),
        body_fault(seq![Struct::Control(c)]) is None,
        body_locals(seq![Struct::Control(c)], locals) == locals,
{
    lemma_body_of_one(Struct::Control(c), locals, depth);
    crate::structure::lemma_delay_loop_is_a_wait(c, locals, depth);
}

/// A node with any other condition, without guard and diagnostic line, is a
/// loop. With a timeout the loop stands in a scope that takes the timeout
/// handle first; inside the loop the nested nodes come first and the check
/// of the handle last. Without a timeout there is the loop alone: no scope,
/// no handle, no check.
pub proof fn lemma_loop_shape(c: Control, cond: Expr, locals: Set<Seq<char>>, depth: nat)
    requires
        c.while_cond == Some(cond),
        !is_delay(c.while_cond),
        c.if_cond is None,
        c.info is None,
    ensures
        body_text(seq![Struct::Control(c)], locals, depth) == (match c.timeout {
            Some(micros) => line("{"@, depth) + timeout_line(micros, depth + 1) + while_line(
                cond,
                locals,
                depth + 1,
            ) + body_text(c.body@, locals, depth + 2) + line("timeout.check();"@, depth + 2) + line(
                "}"@,
                depth + 1,
            ) + line("}"@, depth),
            None => while_line(cond, locals, depth) + body_text(c.body@, locals, depth + 1) + line(
                "}"@,
                depth,
            ),
        }),
        body_locals(seq![Struct::Control(c)], locals) == locals,
{
    lemma_body_of_one(Struct::Control(c), locals, depth);
    let inside = crate::structure::loop_text(c, locals, depth);
    assert(crate::structure::control_text(c, locals, depth) == Seq::<char>::empty()
        + Seq::<char>::empty() + inside + Seq::<char>::empty());
    lemma_concat_empty(Seq::<char>::empty());
    lemma_concat_empty(inside);
}

/// A block without diagnostic line. An atomic block is the comment that
/// marks it, an opening brace, its statements one level deeper and the
/// closing brace; any other block is its statements alone. Either way the
/// statements stand in their order, each once: see [`lemma_stmts_one_more`].
pub proof fn lemma_block_shape(block: Block, locals: Set<Seq<char>>, depth: nat)
    requires
        block.info is None,
    ensures
        body_text(seq![Struct::Block(block)], locals, depth) == (if block.atomic {
            line("// atomic"@, depth) + line("{"@, depth) + stmts_text(
                block.body@,
                locals,
                depth + 1,
            ) + line("}"@, depth)
        } else {
            stmts_text(block.body@, locals, depth)
        }),
        body_locals(seq![Struct::Block(block)], locals) == stmts_locals(block.body@, locals),
{
    lemma_body_of_one(Struct::Block(block), locals, depth);
    if block.atomic {
        lemma_concat_empty(
            line("// atomic"@, depth) + line("{"@, depth) + stmts_text(
                block.body@,
                locals,
                depth + 1,
            ) + line("}"@, depth),
        );
    } else {
        lemma_concat_empty(stmts_text(block.body@, locals, depth));
    }
}

/// A declaration and, behind it, an assignment to the declared name, which
/// is no pseudo-variable: the assignment goes to the local binding that the
/// declaration has made, not to a persistent variable, and its value sees
/// the name as local too.
pub proof fn lemma_assignment_to_declared(
    name: String,
    value: Expr,
    assigned: Expr,
    locals: Set<Seq<char>>,
    depth: nat,
)
    requires
        !is_debug_access_variable(name@),
    ensures
        stmts_text(
            seq![Stmt::Declare(name, value), Stmt::Assign(name, assigned)],
            locals,
            depth,
        ) == laid_out(
            "let l_"@ + name@ + " = "@ + expr_as_text(
                Type::Num,
                value,
                locals.insert(name@),
                false,
            ) + ";\n"@,
            depth,
        ) + laid_out(
            "l_"@ + name@ + " = "@ + expr_as_text(
                Type::Num,
                assigned,
                locals.insert(name@),
                false,
            ) + ";\n"@,
            depth,
        ),
{
    let declare = Stmt::Declare(name, value);
    let assign = Stmt::Assign(name, assigned);
    let none = Seq::<Stmt>::empty();
    lemma_stmts_one_more(none, declare, locals, depth);
    lemma_stmts_one_more(none.push(declare), assign, locals, depth);
    assert(seq![declare, assign] =~= none.push(declare).push(assign));
    reveal(stmts_locals);
    assert(stmts_locals(none, locals) == locals);
    lemma_concat_empty(laid_out(stmt_text(declare, locals), depth));
}

/// True if the statement at `at` declares `name`.
pub open spec fn declares_at(stmts: Seq<Stmt>, at: int, name: Seq<char>) -> bool {
    0 <= at < stmts.len() && (stmts[at] matches Stmt::Declare(declared, _) && declared@ == name)
}

/// True if one of the statements declares `name`.
pub open spec fn declares(stmts: Seq<Stmt>, name: Seq<char>) -> bool {
    exists|at: int| #[trigger] declares_at(stmts, at, name)
}

/// True if the node at `at` is a block that declares `name`.
pub open spec fn block_declares_at(body: Seq<Struct>, at: int, name: Seq<char>) -> bool {
    0 <= at < body.len() && (body[at] matches Struct::Block(block) && declares(block.body@, name))
}

/// True if one of the nodes is a block that declares `name`.
pub open spec fn blocks_declare(body: Seq<Struct>, name: Seq<char>) -> bool {
    exists|at: int| #[trigger] block_declares_at(body, at, name)
}

/// The names that are local behind statements are those that were local in
/// front of them and those that the statements declare.
pub proof fn lemma_stmts_locals_are(stmts: Seq<Stmt>, locals: Set<Seq<char>>, name: Seq<char>)
    ensures
        stmts_locals(stmts, locals).contains(name) <==> locals.contains(name) || declares(
            stmts,
            name,
        ),
    decreases stmts.len(),
{
    reveal(stmts_locals);
    if stmts.len() == 0 {
        assert forall|at: int| !#[trigger] declares_at(stmts, at, name) by {}
    } else {
        let head = stmts.drop_last();
        let last = stmts.len() - 1;
        lemma_stmts_locals_are(head, locals, name);
        if declares(head, name) {
            let at = choose|at: int| #[trigger] declares_at(head, at, name);
            assert(declares_at(stmts, at, name));
        }
        if declares(stmts, name) {
            let at = choose|at: int| #[trigger] declares_at(stmts, at, name);
            if at < last {
                assert(declares_at(head, at, name));
            } else {
                assert(declares_at(stmts, last, name));
            }
        }
        if stmts_locals(stmts, locals).contains(name) && !stmts_locals(head, locals).contains(
            name,
        ) {
            assert(declares_at(stmts, last, name));
        }
    }
}

/// The names that are local behind a list of nodes are those that were
/// local in front of it and those that the blocks of the list declare. What
/// is declared inside a control node of the list, at whatever depth, is not
/// among them unless it was local before.
pub proof fn lemma_body_locals_are(body: Seq<Struct>, locals: Set<Seq<char>>, name: Seq<char>)
    ensures
        body_locals(body, locals).contains(name) <==> locals.contains(name) || blocks_declare(
            body,
            name,
        ),
    decreases body.len(),
{
    reveal(body_locals);
    if body.len() == 0 {
        assert forall|at: int| !#[trigger] block_declares_at(body, at, name) by {}
    } else {
        let head = body.drop_last();
        let last = body.len() - 1;
        let before = body_locals(head, locals);
        lemma_body_locals_are(head, locals, name);
        match body.last() {
            Struct::Control(_) => {},
            Struct::Block(block) => {
                lemma_stmts_locals_are(block.body@, before, name);
            },
        }
        if blocks_declare(head, name) {
            let at = choose|at: int| #[trigger] block_declares_at(head, at, name);
            assert(block_declares_at(body, at, name));
        }
        if blocks_declare(body, name) {
            let at = choose|at: int| #[trigger] block_declares_at(body, at, name);
            if at < last {
                assert(block_declares_at(head, at, name));
            } else {
                assert(block_declares_at(body, last, name));
            }
        }
        if body_locals(body, locals).contains(name) && !before.contains(name) {
            assert(block_declares_at(body, last, name));
        }
    }
}

} // verus!

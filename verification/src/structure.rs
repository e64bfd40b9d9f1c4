//! The structure translator: control nodes and blocks, as whole lines.
use crate::ast::{Block, Control, Expr, Stmt, Struct};
use crate::emitter::{
    laid_out, lemma_write_ends_line, lemma_write_laid_out, line, Writer, WriterView,
};
use crate::expr::{
    expr_as, expr_as_text, expr_fault, first_fault, step, under, ExprFault, Fault, Type,
};
use crate::literal::{decimal, decimal_string};
use crate::scope::{is_debug_access_variable, var_path_text, Locals};
use crate::seqs::{
    lemma_concat_assoc, lemma_concat_empty, lemma_concat_last, lemma_push_last, lemma_take_ends,
    lemma_take_split, lemma_take_step,
};
use crate::stmt::{
    gen_stmt, lemma_stmt_text_ends_line, stmt_fault, stmt_locals, stmt_text,
};
use vstd::prelude::*;
use vstd::string::StringExecFns;

verus! {

/// The diagnostic line of a node that has an `info`; nothing for one that
/// has none.
pub open spec fn info_text(info: Option<String>, depth: nat) -> Seq<char> {
    match info {
        Some(text) => line("ctx.info(\""@ + text@ + "\");"@, depth),
        None => Seq::empty(),
    }
}

/// The local names after the statements `stmts`, in order.
#[verifier::opaque]
pub open spec fn stmts_locals(stmts: Seq<Stmt>, locals: Set<Seq<char>>) -> Set<Seq<char>>
    decreases stmts.len(),
{
    if stmts.len() == 0 {
        locals
    } else {
        stmt_locals(stmts.last(), stmts_locals(stmts.drop_last(), locals))
    }
}

/// The statements `stmts` in order at depth `depth`. Each is translated with
/// the names that the statements before it have made local.
pub open spec fn stmts_text(stmts: Seq<Stmt>, locals: Set<Seq<char>>, depth: nat) -> Seq<char>
    decreases stmts.len(),
{
    if stmts.len() == 0 {
        Seq::empty()
    } else {
        stmts_text(stmts.drop_last(), locals, depth) + laid_out(
            stmt_text(stmts.last(), stmts_locals(stmts.drop_last(), locals)),
            depth,
        )
    }
}

/// The first fault among the statements `stmts`.
pub open spec fn stmts_fault(stmts: Seq<Stmt>) -> Option<Fault>
    decreases stmts.len(),
{
    if stmts.len() == 0 {
        None
    } else {
        first_fault(
            stmts_fault(stmts.drop_last()),
            under((stmts.len() - 1) as usize, stmt_fault(stmts.last())),
        )
    }
}

/// The text of a block. An atomic block puts its statements, in their order,
/// into a scope of their own that a comment marks as atomic.
pub open spec fn block_text(block: Block, locals: Set<Seq<char>>, depth: nat) -> Seq<char> {
    info_text(block.info, depth) + if block.atomic {
        line("// atomic"@, depth) + line("{"@, depth) + stmts_text(block.body@, locals, depth + 1)
            + line("}"@, depth)
    } else {
        stmts_text(block.body@, locals, depth)
    }
}

/// True if `while_cond` is a literal above zero. Such a loop does not poll:
/// together with its timeout it stands for a wait.
pub open spec fn is_delay(while_cond: Option<Expr>) -> bool {
    while_cond matches Some(Expr::Num(num)) && num.0 > 0
}

/// The microseconds that a delay loop waits: its timeout, or none at all.
pub open spec fn delay_of(timeout: Option<u64>) -> u64 {
    match timeout {
        Some(micros) => micros,
        None => 0,
    }
}

/// The line that takes a timeout handle for `micros` microseconds.
pub open spec fn timeout_line(micros: u64, depth: nat) -> Seq<char> {
    line("let timeout = ctx.timeout("@ + decimal(micros as nat) + ");"@, depth)
}

/// The line that opens the guard on `test`, taken as a boolean.
pub open spec fn guard_line(test: Expr, locals: Set<Seq<char>>, depth: nat) -> Seq<char> {
    line("if "@ + expr_as_text(Type::Bool, test, locals, false) + " {"@, depth)
}

/// The line that opens a loop on `cond`, taken as a boolean.
pub open spec fn while_line(cond: Expr, locals: Set<Seq<char>>, depth: nat) -> Seq<char> {
    line("while "@ + expr_as_text(Type::Bool, cond, locals, false) + " {"@, depth)
}

/// A loop without a timeout around the nodes `body`.
pub open spec fn plain_loop_text(
    cond: Expr,
    body: Seq<Struct>,
    locals: Set<Seq<char>>,
    depth: nat,
) -> Seq<char>
    decreases body, 1nat,
{
    while_line(cond, locals, depth) + body_text(body, locals, depth + 1) + line("}"@, depth)
}

/// A loop with a timeout of `micros` microseconds around the nodes `body`:
/// a scope that first takes a timeout handle and then loops, with a check of
/// the handle at the end of each round.
pub open spec fn timed_loop_text(
    cond: Expr,
    micros: u64,
    body: Seq<Struct>,
    locals: Set<Seq<char>>,
    depth: nat,
) -> Seq<char>
    decreases body, 1nat,
{
    line("{"@, depth) + timeout_line(micros, depth + 1) + while_line(cond, locals, depth + 1)
        + body_text(body, locals, depth + 2) + line("timeout.check();"@, depth + 2) + line(
        "}"@,
        depth + 1,
    ) + line("}"@, depth)
}

/// The wait that a delay loop with this timeout stands for.
pub open spec fn wait_text(timeout: Option<u64>, depth: nat) -> Seq<char> {
    line("ctx.sleep("@ + decimal(delay_of(timeout) as nat) + ");"@, depth)
}

/// The part of a control node inside its guard and below its diagnostic
/// line: a wait for a delay loop, a loop for any other condition, and the
/// nested nodes alone where there is no condition. The nested nodes see the
/// names that are local at the node.
pub open spec fn loop_text(c: Control, locals: Set<Seq<char>>, depth: nat) -> Seq<char>
    decreases c, 0nat,
{
    match c.while_cond {
        Some(cond) => if is_delay(c.while_cond) {
            wait_text(c.timeout, depth)
        } else {
            match c.timeout {
                Some(micros) => timed_loop_text(cond, micros, c.body@, locals, depth),
                None => plain_loop_text(cond, c.body@, locals, depth),
            }
        },
        None => body_text(c.body@, locals, depth),
    }
}

/// The depth inside the guard of `c`.
pub open spec fn guarded_depth(c: Control, depth: nat) -> nat {
    if c.if_cond is Some {
        depth + 1
    } else {
        depth
    }
}

/// The text of a control node: its loop part, below its diagnostic line if
/// it has one, and all of it inside a conditional if it has a guard.
pub open spec fn control_text(c: Control, locals: Set<Seq<char>>, depth: nat) -> Seq<char>
    decreases c, 1nat,
{
    (match c.if_cond {
        Some(test) => guard_line(test, locals, depth),
        None => Seq::empty(),
    }) + info_text(c.info, guarded_depth(c, depth)) + loop_text(
        c,
        locals,
        guarded_depth(c, depth),
    ) + (if c.if_cond is Some {
        line("}"@, depth)
    } else {
        Seq::empty()
    })
}

/// The text of one node.
pub open spec fn struct_text(s: Struct, locals: Set<Seq<char>>, depth: nat) -> Seq<char>
    decreases s, 0nat,
{
    match s {
        Struct::Control(c) => control_text(c, locals, depth),
        Struct::Block(block) => block_text(block, locals, depth),
    }
}

/// The local names after one node. What a block declares stays local; what
/// is declared inside a control node is gone when the node ends.
pub open spec fn struct_locals(s: Struct, locals: Set<Seq<char>>) -> Set<Seq<char>> {
    match s {
        Struct::Control(_) => locals,
        Struct::Block(block) => stmts_locals(block.body@, locals),
    }
}

/// The local names after the nodes `body`, in order.
#[verifier::opaque]
pub open spec fn body_locals(body: Seq<Struct>, locals: Set<Seq<char>>) -> Set<Seq<char>>
    decreases body.len(),
{
    if body.len() == 0 {
        locals
    } else {
        struct_locals(body.last(), body_locals(body.drop_last(), locals))
    }
}

/// The nodes `body` in order at depth `depth`. Each is translated with the
/// names that the nodes before it have left local.
pub open spec fn body_text(body: Seq<Struct>, locals: Set<Seq<char>>, depth: nat) -> Seq<char>
    decreases body, 0nat,
{
    if body.len() == 0 {
        Seq::empty()
    } else {
        body_text(body.drop_last(), locals, depth) + struct_text(
            body.last(),
            body_locals(body.drop_last(), locals),
            depth,
        )
    }
}

/// The first fault of a loop on `cond` around the nodes `body`.
pub open spec fn loop_parts_fault(cond: Expr, body: Seq<Struct>) -> Option<Fault>
    decreases body, 1nat,
{
    first_fault(under(1, expr_fault(cond)), under(2, body_fault(body)))
}

/// The first fault of the loop part of a control node. The nodes inside a
/// delay loop are not translated, so their faults are not found.
pub open spec fn loop_fault(c: Control) -> Option<Fault>
    decreases c, 0nat,
{
    match c.while_cond {
        Some(cond) => if is_delay(c.while_cond) {
            None
        } else {
            loop_parts_fault(cond, c.body@)
        },
        None => under(2, body_fault(c.body@)),
    }
}

/// The first fault of a control node.
pub open spec fn control_fault(c: Control) -> Option<Fault>
    decreases c, 1nat,
{
    first_fault(
        match c.if_cond {
            Some(test) => under(0, expr_fault(test)),
            None => None,
        },
        loop_fault(c),
    )
}

/// The first fault of one node.
pub open spec fn struct_fault(s: Struct) -> Option<Fault>
    decreases s, 0nat,
{
    match s {
        Struct::Control(c) => control_fault(c),
        Struct::Block(block) => stmts_fault(block.body@),
    }
}

/// The first fault among the nodes `body`.
pub open spec fn body_fault(body: Seq<Struct>) -> Option<Fault>
    decreases body, 0nat,
{
    if body.len() == 0 {
        None
    } else {
        first_fault(
            body_fault(body.drop_last()),
            under((body.len() - 1) as usize, struct_fault(body.last())),
        )
    }
}

/// A fault among the first statements is the fault of them all.
pub proof fn lemma_stmts_fault_prefix(stmts: Seq<Stmt>, k: int)
    requires
        0 <= k <= stmts.len(),
        stmts_fault(stmts.take(k)) is Some,
    ensures
        stmts_fault(stmts) == stmts_fault(stmts.take(k)),
    decreases stmts.len() - k,
{
    if k == stmts.len() {
        lemma_take_ends(stmts);
    } else {
        lemma_take_step(stmts, k);
        lemma_stmts_fault_prefix(stmts, k + 1);
    }
}

/// A fault among the first nodes is the fault of them all.
pub proof fn lemma_body_fault_prefix(body: Seq<Struct>, k: int)
    requires
        0 <= k <= body.len(),
        body_fault(body.take(k)) is Some,
    ensures
        body_fault(body) == body_fault(body.take(k)),
    decreases body.len() - k,
{
    if k == body.len() {
        lemma_take_ends(body);
    } else {
        lemma_take_step(body, k);
        lemma_body_fault_prefix(body, k + 1);
    }
}

/// Statements keep the names that are local.
pub proof fn lemma_stmts_keep_local(stmts: Seq<Stmt>, locals: Set<Seq<char>>, name: Seq<char>)
    requires
        locals.contains(name),
    ensures
        stmts_locals(stmts, locals).contains(name),
    decreases stmts.len(),
{
    reveal(stmts_locals);
    if stmts.len() > 0 {
        lemma_stmts_keep_local(stmts.drop_last(), locals, name);
    }
}

/// Nodes keep the names that are local.
pub proof fn lemma_body_keeps_local(body: Seq<Struct>, locals: Set<Seq<char>>, name: Seq<char>)
    requires
        locals.contains(name),
    ensures
        body_locals(body, locals).contains(name),
    decreases body.len(),
{
    reveal(body_locals);
    if body.len() > 0 {
        lemma_body_keeps_local(body.drop_last(), locals, name);
        match body.last() {
            Struct::Control(_) => {},
            Struct::Block(block) => {
                lemma_stmts_keep_local(block.body@, body_locals(body.drop_last(), locals), name);
            },
        }
    }
}

/// The statements of a list are translated in their order: the text of two
/// lists in a row is the text of the first and then that of the second,
/// which sees the names that the first has made local.
pub proof fn lemma_stmts_in_order(
    first: Seq<Stmt>,
    second: Seq<Stmt>,
    locals: Set<Seq<char>>,
    depth: nat,
)
    ensures
        stmts_locals(first + second, locals) == stmts_locals(
            second,
            stmts_locals(first, locals),
        ),
        stmts_text(first + second, locals, depth) == stmts_text(first, locals, depth) + stmts_text(
            second,
            stmts_locals(first, locals),
            depth,
        ),
    decreases second.len(),
{
    reveal(stmts_locals);
    if second.len() == 0 {
        lemma_concat_empty(first);
        lemma_concat_empty(stmts_text(first, locals, depth));
    } else {
        lemma_concat_last(first, second);
        lemma_stmts_in_order(first, second.drop_last(), locals, depth);
        lemma_concat_assoc(
            stmts_text(first, locals, depth),
            stmts_text(second.drop_last(), stmts_locals(first, locals), depth),
            laid_out(
                stmt_text(
                    second.last(),
                    stmts_locals(second.drop_last(), stmts_locals(first, locals)),
                ),
                depth,
            ),
        );
    }
}

/// The scope of a declaration inside a control node. Let `name` be no
/// pseudo-variable.
///
/// Inside, whatever the nodes of the control node are: once the statements
/// `stmts` of a block have declared `name`, at position `at`, the name is
/// local for each later statement of the block, and for whatever nodes
/// `rest` follow the block in that body. There it resolves to the local
/// binding.
///
/// After: the names that are local behind the control node `c` are those
/// that were local in front of it, whatever `c` declares. If `name` was not
/// among them, it resolves to the persistent variable of that name again.
pub proof fn lemma_nested_declaration_scope(
    c: Control,
    stmts: Seq<Stmt>,
    at: int,
    later: int,
    rest: Seq<Struct>,
    name: Seq<char>,
    inner: Set<Seq<char>>,
    before: Seq<Struct>,
    locals: Set<Seq<char>>,
)
    requires
        !is_debug_access_variable(name),
        0 <= at < later <= stmts.len(),
        stmts[at] matches Stmt::Declare(declared, _) && declared@ == name,
    ensures
        var_path_text(name, stmts_locals(stmts.take(later), inner)) == "l_"@ + name,
        var_path_text(name, body_locals(rest, stmts_locals(stmts, inner))) == "l_"@ + name,
        struct_locals(Struct::Control(c), locals) == locals,
        body_locals(before.push(Struct::Control(c)), locals) == body_locals(before, locals),
        !locals.contains(name) ==> var_path_text(
            name,
            struct_locals(Struct::Control(c), locals),
        ) == "ctx.vars[\""@ + name + "\"]"@,
{
    reveal(stmts_locals);
    reveal(body_locals);
    let upto = stmts.take(at + 1);
    lemma_take_step(stmts, at);
    assert(stmts_locals(upto, inner).contains(name));
    let declared = stmts_locals(upto, inner);
    lemma_take_split(stmts, at + 1, later);
    lemma_stmts_in_order(upto, stmts.subrange(at + 1, later), inner, 0);
    lemma_stmts_keep_local(stmts.subrange(at + 1, later), declared, name);
    lemma_take_split(stmts, at + 1, stmts.len() as int);
    lemma_take_ends(stmts);
    lemma_stmts_in_order(upto, stmts.subrange(at + 1, stmts.len() as int), inner, 0);
    lemma_stmts_keep_local(stmts.subrange(at + 1, stmts.len() as int), declared, name);
    lemma_body_keeps_local(rest, stmts_locals(stmts, inner), name);
    lemma_push_last(before, Struct::Control(c));
}

/// A control node whose condition is a literal above zero is a wait and no
/// loop, whatever the literal: without guard and diagnostic line its text is
/// the one line that waits for the timeout of the node.
pub proof fn lemma_delay_loop_is_a_wait(c: Control, locals: Set<Seq<char>>, depth: nat)
    requires
        is_delay(c.while_cond),
        c.if_cond is None,
        c.info is None,
    ensures
        control_text(c, locals, depth) == line(
            "ctx.sleep("@ + decimal(delay_of(c.timeout) as nat) + ");"@,
            depth,
        ),
        control_fault(c) is None,
{
    let wait = wait_text(c.timeout, depth);
    lemma_concat_empty(Seq::<char>::empty());
    lemma_concat_empty(wait);
}

/// `a`, `b` and `c` in a row.
fn join(a: &str, b: &str, c: &str) -> (text: String)
    ensures
        text@ == a@ + b@ + c@,
{
    String::from_str(a).concat(b).concat(c)
}

/// Writes the diagnostic line of a node, if it has one.
fn gen_info(w: &mut Writer, info: &Option<String>)
    requires
        old(w)@.line_start,
    ensures
        final(w)@ == old(w)@.append(info_text(*info, old(w)@.depth)),
{
    match info {
        Some(text) => {
            let call = join("ctx.info(\"", text.as_str(), "\");");
            w.write_line(call.as_str());
        },
        None => {
            proof {
                lemma_concat_empty(w@.text);
            }
        },
    }
}

/// Writes the statements of a block in order.
fn gen_stmts(w: &mut Writer, stmts: &Vec<Stmt>, locals: &mut Locals) -> (r: Result<(), ExprFault>)
    requires
        old(w)@.line_start,
    ensures
        match r {
            Ok(_) => {
                &&& stmts_fault(stmts@) is None
                &&& final(w)@ == old(w)@.append(
                    stmts_text(stmts@, old(locals)@, old(w)@.depth),
                )
                &&& final(locals)@ == stmts_locals(stmts@, old(locals)@)
            },
            Err(e) => stmts_fault(stmts@) == Some(e@),
        },
{
    let ghost start = w@;
    let ghost names = locals@;
    let mut i: usize = 0;
    proof {
        reveal(stmts_locals);
        lemma_take_ends(stmts@);
        lemma_concat_empty(start.text);
    }
    while i < stmts.len()
        invariant
            i <= stmts.len(),
            start.line_start,
            stmts_fault(stmts@.take(i as int)) is None,
            w@ == start.append(stmts_text(stmts@.take(i as int), names, start.depth)),
            locals@ == stmts_locals(stmts@.take(i as int), names),
        decreases stmts.len() - i,
    {
        let ghost before = stmts@.take(i as int);
        let ghost upto = stmts@.take(i + 1);
        let ghost here = w@;
        let ghost known = locals@;
        proof {
            reveal(stmts_locals);
            lemma_take_step(stmts@, i as int);
        }
        match step(i, gen_stmt(w, &stmts[i], locals)) {
            Ok(_) => {},
            Err(fault) => {
                proof {
                    assert(stmts_fault(upto) == Some(fault@));
                    lemma_stmts_fault_prefix(stmts@, i + 1);
                }
                return Err(fault);
            },
        }
        proof {
            let text = stmt_text(stmts@[i as int], known);
            lemma_stmt_text_ends_line(stmts@[i as int], known);
            lemma_write_laid_out(here, text);
            lemma_write_ends_line(WriterView::fresh(here.depth), text);
            assert(w@ == here.append(laid_out(text, start.depth)));
            lemma_concat_assoc(
                start.text,
                stmts_text(before, names, start.depth),
                laid_out(text, start.depth),
            );
            assert(stmts_fault(upto) is None);
        }
        i += 1;
    }
    proof {
        lemma_take_ends(stmts@);
    }
    Ok(())
}

/// Translates a block and writes it to `w`, which stands at the start of a
/// line. What the block declares becomes local in `locals`.
///
/// On a fault nothing is promised of what `w` and `locals` hold.
pub fn gen_block(w: &mut Writer, block: &Block, locals: &mut Locals) -> (r: Result<(), ExprFault>)
    requires
        old(w)@.line_start,
    ensures
        match r {
            Ok(_) => {
                &&& stmts_fault(block.body@) is None
                &&& final(w)@ == old(w)@.append(
                    block_text(*block, old(locals)@, old(w)@.depth),
                )
                &&& final(locals)@ == stmts_locals(block.body@, old(locals)@)
            },
            Err(e) => stmts_fault(block.body@) == Some(e@),
        },
{
    let ghost depth = w@.depth;
    let ghost top = old(w)@.text;
    let ghost info = info_text(block.info, depth);
    gen_info(w, &block.info);
    if block.atomic {
        let ghost mark = line("// atomic"@, depth);
        let ghost open = line("{"@, depth);
        let ghost inside = stmts_text(block.body@, old(locals)@, depth + 1);
        let ghost close = line("}"@, depth);
        let ghost informed = w@;
        w.write_line("// atomic");
        w.write_line("{");
        w.indent();
        gen_stmts(w, &block.body, locals)?;
        w.outdent();
        w.write_line("}");
        proof {
            assert(w@.text == informed.text + mark + open + inside + close);
            lemma_concat_assoc(informed.text, mark, open);
            lemma_concat_assoc(informed.text, mark + open, inside);
            lemma_concat_assoc(informed.text, mark + open + inside, close);
            lemma_concat_assoc(top, info, mark + open + inside + close);
        }
    } else {
        gen_stmts(w, &block.body, locals)?;
        proof {
            lemma_concat_assoc(top, info, stmts_text(block.body@, old(locals)@, depth));
        }
    }
    Ok(())
}

/// Tells whether `while_cond` makes a delay loop.
fn delay_loop(while_cond: &Option<Expr>) -> (delay: bool)
    ensures
        delay == is_delay(*while_cond),
{
    match while_cond {
        Some(Expr::Num(num)) => num.0 > 0,
        _ => false,
    }
}

/// Writes the wait that a delay loop stands for.
fn gen_wait(w: &mut Writer, timeout: Option<u64>)
    requires
        old(w)@.line_start,
    ensures
        final(w)@ == old(w)@.append(wait_text(timeout, old(w)@.depth)),
{
    let micros: u64 = match timeout {
        Some(micros) => micros,
        None => 0,
    };
    let wait = join("ctx.sleep(", decimal_string(micros).as_str(), ");");
    w.write_line(wait.as_str());
}

/// Writes the line that opens a loop on `cond`.
fn gen_while_line(w: &mut Writer, cond: &Expr, locals: &Locals) -> (r: Result<(), ExprFault>)
    requires
        old(w)@.line_start,
    ensures
        match r {
            Ok(_) => {
                &&& expr_fault(*cond) is None
                &&& final(w)@ == old(w)@.append(while_line(*cond, locals@, old(w)@.depth))
            },
            Err(e) => expr_fault(*cond) == Some(e@),
        },
{
    let test = expr_as(Type::Bool, cond, locals, false)?;
    let head = join("while ", test.as_str(), " {");
    w.write_line(head.as_str());
    Ok(())
}

/// Writes the line that takes a timeout handle for `micros` microseconds.
fn gen_timeout_line(w: &mut Writer, micros: u64)
    requires
        old(w)@.line_start,
    ensures
        final(w)@ == old(w)@.append(timeout_line(micros, old(w)@.depth)),
{
    let handle = join("let timeout = ctx.timeout(", decimal_string(micros).as_str(), ");");
    w.write_line(handle.as_str());
}

/// Writes a loop without a timeout.
fn gen_plain_loop(w: &mut Writer, cond: &Expr, body: &Vec<Struct>, locals: &Locals) -> (r: Result<
    (),
    ExprFault,
>)
    requires
        old(w)@.line_start,
    ensures
        match r {
            Ok(_) => {
                &&& loop_parts_fault(*cond, body@) is None
                &&& final(w)@ == old(w)@.append(
                    plain_loop_text(*cond, body@, locals@, old(w)@.depth),
                )
            },
            Err(e) => loop_parts_fault(*cond, body@) == Some(e@),
        },
    decreases *body, 1nat,
{
    let ghost depth = w@.depth;
    let ghost top = old(w)@.text;
    let ghost head = while_line(*cond, locals@, depth);
    let ghost nodes = body_text(body@, locals@, depth + 1);
    let ghost close = line("}"@, depth);
    step(1, gen_while_line(w, cond, locals))?;
    w.indent();
    let mut inner = locals.clone();
    step(2, gen_body(w, body, &mut inner))?;
    w.outdent();
    w.write_line("}");
    proof {
        assert(w@.text == top + head + nodes + close);
        lemma_concat_assoc(top, head, nodes);
        lemma_concat_assoc(top, head + nodes, close);
    }
    Ok(())
}

/// Writes a loop with a timeout of `micros` microseconds.
fn gen_timed_loop(
    w: &mut Writer,
    cond: &Expr,
    micros: u64,
    body: &Vec<Struct>,
    locals: &Locals,
) -> (r: Result<(), ExprFault>)
    requires
        old(w)@.line_start,
    ensures
        match r {
            Ok(_) => {
                &&& loop_parts_fault(*cond, body@) is None
                &&& final(w)@ == old(w)@.append(
                    timed_loop_text(*cond, micros, body@, locals@, old(w)@.depth),
                )
            },
            Err(e) => loop_parts_fault(*cond, body@) == Some(e@),
        },
    decreases *body, 1nat,
{
    let ghost depth = w@.depth;
    let ghost top = old(w)@.text;
    let ghost open = line("{"@, depth);
    let ghost handle = timeout_line(micros, depth + 1);
    let ghost head = while_line(*cond, locals@, depth + 1);
    let ghost nodes = body_text(body@, locals@, depth + 2);
    let ghost check = line("timeout.check();"@, depth + 2);
    let ghost close_loop = line("}"@, depth + 1);
    let ghost close = line("}"@, depth);
    w.write_line("{");
    w.indent();
    gen_timeout_line(w, micros);
    step(1, gen_while_line(w, cond, locals))?;
    w.indent();
    let mut inner = locals.clone();
    step(2, gen_body(w, body, &mut inner))?;
    w.write_line("timeout.check();");
    w.outdent();
    w.write_line("}");
    w.outdent();
    w.write_line("}");
    proof {
        assert(w@.text == top + open + handle + head + nodes + check + close_loop + close);
        lemma_concat_assoc(top, open, handle);
        lemma_concat_assoc(top, open + handle, head);
        lemma_concat_assoc(top, open + handle + head, nodes);
        lemma_concat_assoc(top, open + handle + head + nodes, check);
        lemma_concat_assoc(top, open + handle + head + nodes + check, close_loop);
        lemma_concat_assoc(top, open + handle + head + nodes + check + close_loop, close);
    }
    Ok(())
}

/// Writes the loop part of a control node.
fn gen_loop(w: &mut Writer, c: &Control, locals: &Locals) -> (r: Result<(), ExprFault>)
    requires
        old(w)@.line_start,
    ensures
        match r {
            Ok(_) => {
                &&& loop_fault(*c) is None
                &&& final(w)@ == old(w)@.append(loop_text(*c, locals@, old(w)@.depth))
            },
            Err(e) => loop_fault(*c) == Some(e@),
        },
    decreases *c, 0nat,
{
    if delay_loop(&c.while_cond) {
        gen_wait(w, c.timeout);
        return Ok(());
    }
    match &c.while_cond {
        Some(cond) => match c.timeout {
            Some(micros) => gen_timed_loop(w, cond, micros, &c.body, locals),
            None => gen_plain_loop(w, cond, &c.body, locals),
        },
        None => {
            let mut inner = locals.clone();
            step(2, gen_body(w, &c.body, &mut inner))
        },
    }
}

/// Writes the line that opens the guard on `test`.
fn gen_guard_line(w: &mut Writer, test: &Expr, locals: &Locals) -> (r: Result<(), ExprFault>)
    requires
        old(w)@.line_start,
    ensures
        match r {
            Ok(_) => {
                &&& expr_fault(*test) is None
                &&& final(w)@ == old(w)@.append(guard_line(*test, locals@, old(w)@.depth))
            },
            Err(e) => expr_fault(*test) == Some(e@),
        },
{
    let cond = expr_as(Type::Bool, test, locals, false)?;
    let head = join("if ", cond.as_str(), " {");
    w.write_line(head.as_str());
    Ok(())
}

/// Translates a control node and writes it to `w`, which stands at the start
/// of a line. The names in `locals` are local inside the node; what the node
/// declares is local only inside it.
///
/// On a fault nothing is promised of what `w` holds.
pub fn gen_control(w: &mut Writer, c: &Control, locals: &Locals) -> (r: Result<(), ExprFault>)
    requires
        old(w)@.line_start,
    ensures
        match r {
            Ok(_) => {
                &&& control_fault(*c) is None
                &&& final(w)@ == old(w)@.append(control_text(*c, locals@, old(w)@.depth))
            },
            Err(e) => control_fault(*c) == Some(e@),
        },
    decreases *c, 1nat,
{
    let ghost depth = w@.depth;
    let ghost top = old(w)@.text;
    match &c.if_cond {
        Some(test) => {
            let ghost guard = guard_line(*test, locals@, depth);
            let ghost info = info_text(c.info, depth + 1);
            let ghost inside = loop_text(*c, locals@, depth + 1);
            let ghost close = line("}"@, depth);
            step(0, gen_guard_line(w, test, locals))?;
            w.indent();
            gen_info(w, &c.info);
            gen_loop(w, c, locals)?;
            w.outdent();
            w.write_line("}");
            proof {
                assert(w@.text == top + guard + info + inside + close);
                lemma_concat_assoc(top, guard, info);
                lemma_concat_assoc(top, guard + info, inside);
                lemma_concat_assoc(top, guard + info + inside, close);
            }
        },
        None => {
            let ghost info = info_text(c.info, depth);
            let ghost inside = loop_text(*c, locals@, depth);
            gen_info(w, &c.info);
            gen_loop(w, c, locals)?;
            proof {
                assert(w@.text == top + info + inside);
                lemma_concat_assoc(top, info, inside);
                lemma_concat_empty(info);
                lemma_concat_empty(info + inside);
            }
        },
    }
    Ok(())
}

/// Translates the nodes `body` in order and writes them to `w`, which stands
/// at the start of a line. What the blocks among them declare becomes local
/// in `locals`.
///
/// On a fault nothing is promised of what `w` and `locals` hold.
pub fn gen_body(w: &mut Writer, body: &Vec<Struct>, locals: &mut Locals) -> (r: Result<
    (),
    ExprFault,
>)
    requires
        old(w)@.line_start,
    ensures
        match r {
            Ok(_) => {
                &&& body_fault(body@) is None
                &&& final(w)@ == old(w)@.append(body_text(body@, old(locals)@, old(w)@.depth))
                &&& final(locals)@ == body_locals(body@, old(locals)@)
            },
            Err(e) => body_fault(body@) == Some(e@),
        },
    decreases *body, 0nat,
{
    let ghost start = w@;
    let ghost names = locals@;
    let mut i: usize = 0;
    proof {
        reveal(body_locals);
        lemma_take_ends(body@);
        lemma_concat_empty(start.text);
    }
    while i < body.len()
        invariant
            i <= body.len(),
            start.line_start,
            body_fault(body@.take(i as int)) is None,
            w@ == start.append(body_text(body@.take(i as int), names, start.depth)),
            locals@ == body_locals(body@.take(i as int), names),
        decreases body.len() - i,
    {
        let ghost before = body@.take(i as int);
        let ghost upto = body@.take(i + 1);
        proof {
            reveal(body_locals);
            vstd::std_specs::vec::axiom_vec_index_decreases(*body, i as int);
            lemma_take_step(body@, i as int);
        }
        let ghost here = w@;
        let ghost known = locals@;
        let done = match &body[i] {
            Struct::Control(c) => gen_control(w, c, locals),
            Struct::Block(block) => gen_block(w, block, locals),
        };
        match step(i, done) {
            Ok(_) => {},
            Err(fault) => {
                proof {
                    assert(under(i, struct_fault(body@[i as int])) == Some(fault@));
                    assert(body_fault(upto) == Some(fault@));
                    lemma_body_fault_prefix(body@, i + 1);
                }
                return Err(fault);
            },
        }
        proof {
            assert(struct_fault(body@[i as int]) is None);
            assert(body_fault(upto) is None);
            assert(w@ == here.append(struct_text(body@[i as int], known, start.depth)));
            assert(locals@ == struct_locals(body@[i as int], known));
            lemma_concat_assoc(
                start.text,
                body_text(before, names, start.depth),
                struct_text(body@[i as int], known, start.depth),
            );
        }
        i += 1;
    }
    proof {
        lemma_take_ends(body@);
    }
    Ok(())
}

} // verus!

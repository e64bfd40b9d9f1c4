//! The expression translator.
//!
//! Every expression has a natural type, numeric or boolean. Where the
//! context asks for the other type the text is wrapped in a conversion.
use crate::ast::{Arg, BinOp, Expr, UnOp};
use crate::emitter::{lemma_write_chain, lemma_write_flat, Writer, WriterView};
use crate::literal::{gen_num, num_text};
use crate::scope::{str_eq, var_path, var_path_text, Locals};
use crate::seqs::{lemma_concat_assoc, lemma_concat_empty, lemma_take_ends, lemma_take_step};
use vstd::prelude::*;
use vstd::string::StringExecFns;

verus! {

/// The two types of the script language that the translator tells apart.
#[derive(Clone, Copy, Debug, PartialEq, Eq, Structural)]
pub enum Type {
    Num,
    Bool,
}

/// How a binary operator treats its operands and what it yields.
#[derive(Clone, Copy, Debug, PartialEq, Eq, Structural)]
pub enum OpClass {
    /// Arithmetic, bitwise and shift operators: numbers to a number.
    Plain,
    /// Comparisons: numbers to a boolean.
    Cmp,
    /// Logical operators: booleans to a boolean.
    Logic,
}

/// Why an expression cannot be translated.
#[derive(Clone, Copy, Debug, PartialEq, Eq, Structural)]
pub enum ExprError {
    /// A call of `Sequence` with `found` arguments in place of one.
    SequenceArgCount { found: usize },
    /// A call of `Sequence` whose one argument is an expression, not a string.
    SequenceArgNotString,
}

/// A fault and the way to it. The way leads from the expression, statement or
/// list of nodes that was to be translated down to the faulty call, one step
/// for each level:
///
/// - in a list of nodes, statements or arguments, the position of the item;
/// - in a control node, 0 for the guard, 1 for the loop condition and 2 for
///   the list of nested nodes;
/// - in a unary operation 0, in a binary operation 0 or 1, in a conditional
///   0, 1 or 2 for the operand.
///
/// A block adds no step to that of its statement, and a statement none to
/// the way inside its expression.
pub struct Fault {
    pub kind: ExprError,
    pub path: Seq<usize>,
}

/// A fault found while translating, with the way to it.
#[derive(Debug, PartialEq, Eq)]
pub struct ExprFault {
    /// What is wrong with the call.
    pub kind: ExprError,
    /// The way to the call: see [`Fault`].
    pub path: Vec<usize>,
}

impl View for ExprFault {
    type V = Fault;

    open spec fn view(&self) -> Fault {
        Fault { kind: self.kind, path: self.path@ }
    }
}

/// The fault of a part as a fault of the whole: the step to the part comes
/// first.
pub open spec fn under(step: usize, fault: Option<Fault>) -> Option<Fault> {
    match fault {
        Some(f) => Some(Fault { kind: f.kind, path: seq![step] + f.path }),
        None => None,
    }
}

/// The name under which one sequence calls another.
pub open spec fn sequence_call() -> Seq<char> {
    "Sequence"@
}

/// The operator as the script language writes it.
pub open spec fn bin_op_text(op: BinOp) -> Seq<char> {
    match op {
        BinOp::Add => "+"@,
        BinOp::Sub => "-"@,
        BinOp::Mul => "*"@,
        BinOp::Div => "/"@,
        BinOp::Rem => "%"@,
        BinOp::BitXor => "^"@,
        BinOp::BitAnd => "&"@,
        BinOp::BitOr => "|"@,
        BinOp::Shr => ">>"@,
        BinOp::Shl => "<<"@,
        BinOp::Lt => "<"@,
        BinOp::Le => "<="@,
        BinOp::Ge => ">="@,
        BinOp::Gt => ">"@,
        BinOp::Eq => "=="@,
        BinOp::Ne => "!="@,
        BinOp::And => "&&"@,
        BinOp::Or => "||"@,
    }
}

/// The class of a binary operator.
pub open spec fn bin_op_class(op: BinOp) -> OpClass {
    match op {
        BinOp::Lt | BinOp::Le | BinOp::Ge | BinOp::Gt | BinOp::Eq | BinOp::Ne => OpClass::Cmp,
        BinOp::And | BinOp::Or => OpClass::Logic,
        _ => OpClass::Plain,
    }
}

/// The numeric unary operators as the script language writes them. Unary
/// plus is written as nothing.
pub open spec fn un_op_text(op: UnOp) -> Seq<char> {
    match op {
        UnOp::Not => "!"@,
        UnOp::BitNot => "!"@,
        UnOp::Pos => ""@,
        UnOp::Neg => "-"@,
    }
}

/// The type that a unary operation yields.
pub open spec fn unary_type(op: UnOp) -> Type {
    match op {
        UnOp::Not => Type::Bool,
        _ => Type::Num,
    }
}

/// The type that a binary operation yields.
pub open spec fn binary_type(op: BinOp) -> Type {
    match bin_op_class(op) {
        OpClass::Plain => Type::Num,
        OpClass::Cmp => Type::Bool,
        OpClass::Logic => Type::Bool,
    }
}

/// The natural type of an expression.
pub open spec fn expr_type(e: Expr) -> Type {
    match e {
        Expr::Num(_) => Type::Num,
        Expr::Var(_) => Type::Num,
        Expr::Call(_, _) => Type::Num,
        Expr::Unary(op, _) => unary_type(op),
        Expr::Binary(op, _) => binary_type(op),
        Expr::Cond(_) => Type::Num,
    }
}

/// `text`, of type `have`, where type `want` is asked for: as it is if the
/// types agree, inside the conversion to `want` if they do not.
pub open spec fn coerce_text(want: Type, have: Type, text: Seq<char>) -> Seq<char> {
    if want == have {
        text
    } else {
        match want {
            Type::Bool => "toBoolean("@ + text + ")"@,
            Type::Num => "toNumeric("@ + text + ")"@,
        }
    }
}

/// `inner` in parentheses if it is the operand of another operator.
pub open spec fn paren_text(nested: bool, inner: Seq<char>) -> Seq<char> {
    if nested {
        "("@ + inner + ")"@
    } else {
        inner
    }
}

/// Two operands around an operator, a space on either side of it.
pub open spec fn infix_text(left: Seq<char>, op: BinOp, right: Seq<char>) -> Seq<char> {
    left + " "@ + bin_op_text(op) + " "@ + right
}

/// The text of one argument of a host call: an expression at its natural
/// type, a string between double quotes as it is.
pub open spec fn arg_text(arg: Arg, locals: Set<Seq<char>>) -> Seq<char>
    decreases arg, 0nat,
{
    match arg {
        Arg::Expr(e) => expr_text(e, locals, false),
        Arg::String(s) => "\""@ + s@ + "\""@,
    }
}

/// The arguments of a host call, separated by a comma and a space.
pub open spec fn args_text(args: Seq<Arg>, locals: Set<Seq<char>>) -> Seq<char>
    decreases args, 0nat,
{
    if args.len() == 0 {
        Seq::empty()
    } else if args.len() == 1 {
        arg_text(args.last(), locals)
    } else {
        args_text(args.drop_last(), locals) + ", "@ + arg_text(args.last(), locals)
    }
}

/// True if `args` is what a call of `Sequence` takes: one string.
pub open spec fn names_sequence(args: Seq<Arg>) -> bool {
    args.len() == 1 && args[0] is String
}

/// The text of a call. `Sequence` with the name of a sequence is a call of
/// the unit made for that sequence, which gets the session. A call of any
/// other name goes to the host function of that name. A call of `Sequence`
/// with other arguments is a fault and has no text.
pub open spec fn call_text(func: Seq<char>, args: Seq<Arg>, locals: Set<Seq<char>>) -> Seq<char>
    decreases args, 1nat,
{
    if func == sequence_call() {
        if names_sequence(args) {
            "s_"@ + args[0]->String_0@ + "(ctx)"@
        } else {
            Seq::empty()
        }
    } else {
        "ctx.cmsis_"@ + func + "("@ + args_text(args, locals) + ")"@
    }
}

/// The text of a unary operation. Logical negation takes its operand as a
/// boolean and needs no parentheses; the other operators take a number.
pub open spec fn unary_text(op: UnOp, operand: Expr, locals: Set<Seq<char>>, nested: bool) -> Seq<
    char,
>
    decreases operand, 2nat,
{
    match op {
        UnOp::Not => "!"@ + expr_as_text(Type::Bool, operand, locals, true),
        _ => paren_text(nested, un_op_text(op) + expr_text(operand, locals, true)),
    }
}

/// The text of a binary operation.
///
/// Both sides of a logical operator show the left operand, as a boolean; the
/// right operand is not translated. That is a decision: scripts in use have
/// this shape, and the translator keeps to it.
pub open spec fn binary_text(
    op: BinOp,
    operands: (Expr, Expr),
    locals: Set<Seq<char>>,
    nested: bool,
) -> Seq<char>
    decreases operands, 0nat,
{
    paren_text(
        nested,
        match bin_op_class(op) {
            OpClass::Logic => infix_text(
                expr_as_text(Type::Bool, operands.0, locals, true),
                op,
                expr_as_text(Type::Bool, operands.0, locals, true),
            ),
            _ => infix_text(
                expr_text(operands.0, locals, true),
                op,
                expr_text(operands.1, locals, true),
            ),
        },
    )
}

/// The text of a conditional: the test as a boolean, either value at its
/// natural type.
pub open spec fn cond_text(operands: (Expr, Expr, Expr), locals: Set<Seq<char>>) -> Seq<char>
    decreases operands, 0nat,
{
    "if "@ + expr_as_text(Type::Bool, operands.0, locals, false) + " {"@ + expr_text(
        operands.1,
        locals,
        false,
    ) + " } else { "@ + expr_text(operands.2, locals, false) + " }"@
}

/// The script text of the expression `e` where `locals` are the local names.
/// `nested` tells that `e` is the operand of an operator.
pub open spec fn expr_text(e: Expr, locals: Set<Seq<char>>, nested: bool) -> Seq<char>
    decreases e, 0nat,
{
    match e {
        Expr::Num(num) => num_text(num),
        Expr::Var(name) => var_path_text(name@, locals),
        Expr::Call(func, args) => call_text(func@, args@, locals),
        Expr::Unary(op, operand) => unary_text(op, *operand, locals, nested),
        Expr::Binary(op, operands) => binary_text(op, *operands, locals, nested),
        Expr::Cond(operands) => cond_text(*operands, locals),
    }
}

/// The script text of `e` where a value of type `want` is asked for.
pub open spec fn expr_as_text(want: Type, e: Expr, locals: Set<Seq<char>>, nested: bool) -> Seq<
    char,
>
    decreases e, 1nat,
{
    coerce_text(want, expr_type(e), expr_text(e, locals, nested))
}

/// The first of two faults, in the order in which they are found.
pub open spec fn first_fault(a: Option<Fault>, b: Option<Fault>) -> Option<Fault> {
    if a is Some {
        a
    } else {
        b
    }
}

/// The fault of an argument of a host call, if it has one.
pub open spec fn arg_fault(arg: Arg) -> Option<Fault>
    decreases arg, 0nat,
{
    match arg {
        Arg::Expr(e) => expr_fault(e),
        Arg::String(_) => None,
    }
}

/// The first fault among the arguments of a host call.
pub open spec fn args_fault(args: Seq<Arg>) -> Option<Fault>
    decreases args, 0nat,
{
    if args.len() == 0 {
        None
    } else {
        first_fault(
            args_fault(args.drop_last()),
            under((args.len() - 1) as usize, arg_fault(args.last())),
        )
    }
}

/// The fault of a call: `Sequence` with anything but one string, or else the
/// first fault among the arguments.
pub open spec fn call_fault(func: Seq<char>, args: Seq<Arg>) -> Option<Fault>
    decreases args, 1nat,
{
    if func == sequence_call() {
        if args.len() != 1 {
            Some(
                Fault {
                    kind: ExprError::SequenceArgCount { found: args.len() as usize },
                    path: Seq::empty(),
                },
            )
        } else if args[0] is Expr {
            Some(Fault { kind: ExprError::SequenceArgNotString, path: Seq::empty() })
        } else {
            None
        }
    } else {
        args_fault(args)
    }
}

/// The first fault of a binary operation. The right operand of a logical
/// operator is not looked at.
pub open spec fn binary_fault(op: BinOp, operands: (Expr, Expr)) -> Option<Fault>
    decreases operands, 0nat,
{
    match bin_op_class(op) {
        OpClass::Logic => under(0, expr_fault(operands.0)),
        _ => first_fault(under(0, expr_fault(operands.0)), under(1, expr_fault(operands.1))),
    }
}

/// The first fault of a conditional.
pub open spec fn cond_fault(operands: (Expr, Expr, Expr)) -> Option<Fault>
    decreases operands, 0nat,
{
    first_fault(
        under(0, expr_fault(operands.0)),
        first_fault(under(1, expr_fault(operands.1)), under(2, expr_fault(operands.2))),
    )
}

/// The first fault that the translation of `e` meets, if there is one.
pub open spec fn expr_fault(e: Expr) -> Option<Fault>
    decreases e, 0nat,
{
    match e {
        Expr::Num(_) => None,
        Expr::Var(_) => None,
        Expr::Call(func, args) => call_fault(func@, args@),
        Expr::Unary(_, operand) => under(0, expr_fault(*operand)),
        Expr::Binary(op, operands) => binary_fault(op, *operands),
        Expr::Cond(operands) => cond_fault(*operands),
    }
}

/// A fault among the first arguments is the fault of them all.
pub proof fn lemma_args_fault_prefix(args: Seq<Arg>, k: int)
    requires
        0 <= k <= args.len(),
        args_fault(args.take(k)) is Some,
    ensures
        args_fault(args) == args_fault(args.take(k)),
    decreases args.len() - k,
{
    if k == args.len() {
        lemma_take_ends(args);
    } else {
        lemma_take_step(args, k);
        lemma_args_fault_prefix(args, k + 1);
    }
}

/// Where the natural type is the type asked for, the text is that of the
/// expression itself: no conversion is written around it.
pub proof fn lemma_no_conversion_on_match(
    want: Type,
    e: Expr,
    locals: Set<Seq<char>>,
    nested: bool,
)
    requires
        expr_type(e) == want,
    ensures
        expr_as_text(want, e, locals, nested) == expr_text(e, locals, nested),
{
}

/// The script text and the class of a binary operator.
pub fn bin_op(op: BinOp) -> (r: (&'static str, OpClass))
    ensures
        r.0@ == bin_op_text(op),
        r.1 == bin_op_class(op),
{
    match op {
        BinOp::Add => ("+", OpClass::Plain),
        BinOp::Sub => ("-", OpClass::Plain),
        BinOp::Mul => ("*", OpClass::Plain),
        BinOp::Div => ("/", OpClass::Plain),
        BinOp::Rem => ("%", OpClass::Plain),
        BinOp::BitXor => ("^", OpClass::Plain),
        BinOp::BitAnd => ("&", OpClass::Plain),
        BinOp::BitOr => ("|", OpClass::Plain),
        BinOp::Shr => (">>", OpClass::Plain),
        BinOp::Shl => ("<<", OpClass::Plain),
        BinOp::Lt => ("<", OpClass::Cmp),
        BinOp::Le => ("<=", OpClass::Cmp),
        BinOp::Ge => (">=", OpClass::Cmp),
        BinOp::Gt => (">", OpClass::Cmp),
        BinOp::Eq => ("==", OpClass::Cmp),
        BinOp::Ne => ("!=", OpClass::Cmp),
        BinOp::And => ("&&", OpClass::Logic),
        BinOp::Or => ("||", OpClass::Logic),
    }
}

/// The script text of a unary operator.
pub fn un_op(op: UnOp) -> (text: &'static str)
    ensures
        text@ == un_op_text(op),
{
    match op {
        UnOp::Not => "!",
        UnOp::BitNot => "!",
        UnOp::Pos => "",
        UnOp::Neg => "-",
    }
}

/// Hands on the outcome of translating a part: a fault of the part becomes
/// a fault of the whole, `at` being the step to the part.
pub fn step<T>(at: usize, outcome: Result<T, ExprFault>) -> (r: Result<T, ExprFault>)
    ensures
        match outcome {
            Ok(value) => r == Ok::<T, ExprFault>(value),
            Err(fault) => r is Err && under(at, Some(fault@)) == Some(r->Err_0@),
        },
{
    match outcome {
        Ok(value) => Ok(value),
        Err(fault) => {
            let mut path = fault.path;
            path.insert(0, at);
            proof {
                assert(path@ =~= seq![at] + fault.path@);
            }
            Err(ExprFault { kind: fault.kind, path })
        },
    }
}

/// Translates `expr` where a value of type `result_type` is asked for, and
/// returns the text. No conversion is written where the natural type of
/// `expr` is the type asked for.
pub fn expr_as(result_type: Type, expr: &Expr, locals: &Locals, nested: bool) -> (r: Result<
    String,
    ExprFault,
>)
    ensures
        match r {
            Ok(text) => {
                &&& expr_fault(*expr) is None
                &&& text@ == expr_as_text(result_type, *expr, locals@, nested)
                &&& expr_type(*expr) == result_type ==> text@ == expr_text(*expr, locals@, nested)
            },
            Err(e) => expr_fault(*expr) == Some(e@),
        },
    decreases *expr, 1nat,
{
    let mut w = Writer::new();
    let t = gen_expr(&mut w, expr, locals, nested)?;
    proof {
        let text = expr_text(*expr, locals@, nested);
        lemma_write_flat(WriterView::fresh(0), text);
        lemma_concat_empty(text);
    }
    let s = w.end();
    if t == result_type {
        Ok(s)
    } else {
        Ok(
            match result_type {
                Type::Bool => String::from_str("toBoolean(").concat(s.as_str()).concat(")"),
                Type::Num => String::from_str("toNumeric(").concat(s.as_str()).concat(")"),
            },
        )
    }
}

/// Writes the arguments of a host call.
fn gen_args(w: &mut Writer, args: &Vec<Arg>, locals: &Locals) -> (r: Result<(), ExprFault>)
    ensures
        match r {
            Ok(_) => {
                &&& args_fault(args@) is None
                &&& final(w)@ == old(w)@.write(args_text(args@, locals@))
            },
            Err(e) => args_fault(args@) == Some(e@),
        },
    decreases *args, 0nat,
{
    let ghost start = w@;
    let mut i: usize = 0;
    proof {
        lemma_take_ends(args@);
    }
    while i < args.len()
        invariant
            i <= args.len(),
            args_fault(args@.take(i as int)) is None,
            w@ == start.write(args_text(args@.take(i as int), locals@)),
        decreases args.len() - i,
    {
        broadcast use lemma_write_chain;

        let ghost before = args@.take(i as int);
        let ghost upto = args@.take(i + 1);
        proof {
            vstd::std_specs::vec::axiom_vec_index_decreases(*args, i as int);
            lemma_take_step(args@, i as int);
        }
        if i > 0 {
            w.write_str(", ");
        }
        match &args[i] {
            Arg::Expr(e) => {
                match step(i, gen_expr(w, e, locals, false)) {
                    Ok(_) => {
                        assert(arg_fault(args@[i as int]) is None);
                    },
                    Err(fault) => {
                        proof {
                            assert(under(i, arg_fault(args@[i as int])) == Some(fault@));
                            assert(args_fault(upto) == Some(fault@));
                            lemma_args_fault_prefix(args@, i + 1);
                        }
                        return Err(fault);
                    },
                }
            },
            Arg::String(s) => {
                w.write_str("\"");
                w.write_str(s.as_str());
                w.write_str("\"");
                assert(arg_fault(args@[i as int]) is None);
            },
        }
        proof {
            assert(args_fault(upto) is None);
            let piece = arg_text(args@[i as int], locals@);
            if i == 0 {
                lemma_concat_empty(piece);
            }
        }
        i += 1;
    }
    proof {
        lemma_take_ends(args@);
    }
    Ok(())
}

/// Writes a call of `func` with `args`.
fn gen_call(w: &mut Writer, func: &str, args: &Vec<Arg>, locals: &Locals) -> (r: Result<
    (),
    ExprFault,
>)
    ensures
        match r {
            Ok(_) => {
                &&& call_fault(func@, args@) is None
                &&& final(w)@ == old(w)@.write(call_text(func@, args@, locals@))
            },
            Err(e) => call_fault(func@, args@) == Some(e@),
        },
    decreases *args, 1nat,
{
    broadcast use lemma_write_chain;

    if str_eq(func, "Sequence") {
        if args.len() != 1 {
            return Err(
                ExprFault {
                    kind: ExprError::SequenceArgCount { found: args.len() },
                    path: Vec::new(),
                },
            );
        }
        match &args[0] {
            Arg::String(name) => {
                w.write_str("s_");
                w.write_str(name.as_str());
                w.write_str("(ctx)");
                Ok(())
            },
            Arg::Expr(_) => Err(
                ExprFault { kind: ExprError::SequenceArgNotString, path: Vec::new() },
            ),
        }
    } else {
        w.write_str("ctx.cmsis_");
        w.write_str(func);
        w.write_str("(");
        gen_args(w, args, locals)?;
        w.write_str(")");
        Ok(())
    }
}

/// Writes a unary operation.
fn gen_unary(w: &mut Writer, op: UnOp, operand: &Expr, locals: &Locals, nested: bool) -> (r:
    Result<Type, ExprFault>)
    ensures
        match r {
            Ok(t) => {
                &&& expr_fault(*operand) is None
                &&& t == unary_type(op)
                &&& final(w)@ == old(w)@.write(unary_text(op, *operand, locals@, nested))
            },
            Err(e) => under(0, expr_fault(*operand)) == Some(e@),
        },
    decreases *operand, 2nat,
{
    broadcast use lemma_write_chain;

    match op {
        UnOp::Not => {
            let inner = step(0, expr_as(Type::Bool, operand, locals, true))?;
            w.write_str("!");
            w.write_str(inner.as_str());
            Ok(Type::Bool)
        },
        _ => {
            if nested {
                w.write_str("(");
            }
            w.write_str(un_op(op));
            step(0, gen_expr(w, operand, locals, true))?;
            if nested {
                w.write_str(")");
            }
            proof {
                lemma_concat_assoc("("@, un_op_text(op), expr_text(*operand, locals@, true));
            }
            Ok(Type::Num)
        },
    }
}

/// Writes a binary operation.
fn gen_binary(
    w: &mut Writer,
    op: BinOp,
    operands: &(Expr, Expr),
    locals: &Locals,
    nested: bool,
) -> (r: Result<Type, ExprFault>)
    ensures
        match r {
            Ok(t) => {
                &&& binary_fault(op, *operands) is None
                &&& t == binary_type(op)
                &&& final(w)@ == old(w)@.write(binary_text(op, *operands, locals@, nested))
            },
            Err(e) => binary_fault(op, *operands) == Some(e@),
        },
    decreases *operands, 0nat,
{
    broadcast use lemma_write_chain;

    let (sign, class) = bin_op(op);
    if nested {
        w.write_str("(");
    }
    let ghost opened = w@;
    let t = match class {
        OpClass::Logic => {
            // Both sides show the left operand: see `binary_text`.
            let left = step(0, expr_as(Type::Bool, &operands.0, locals, true))?;
            let right = step(0, expr_as(Type::Bool, &operands.0, locals, true))?;
            w.write_str(left.as_str());
            w.write_str(" ");
            w.write_str(sign);
            w.write_str(" ");
            w.write_str(right.as_str());
            Type::Bool
        },
        _ => {
            step(0, gen_expr(w, &operands.0, locals, true))?;
            w.write_str(" ");
            w.write_str(sign);
            w.write_str(" ");
            step(1, gen_expr(w, &operands.1, locals, true))?;
            match class {
                OpClass::Cmp => Type::Bool,
                _ => Type::Num,
            }
        },
    };
    let ghost inner = match bin_op_class(op) {
        OpClass::Logic => infix_text(
            expr_as_text(Type::Bool, operands.0, locals@, true),
            op,
            expr_as_text(Type::Bool, operands.0, locals@, true),
        ),
        _ => infix_text(
            expr_text(operands.0, locals@, true),
            op,
            expr_text(operands.1, locals@, true),
        ),
    };
    assert(w@ == opened.write(inner));
    if nested {
        w.write_str(")");
    }
    Ok(t)
}

/// Writes a conditional.
fn gen_cond(w: &mut Writer, operands: &(Expr, Expr, Expr), locals: &Locals) -> (r: Result<
    (),
    ExprFault,
>)
    ensures
        match r {
            Ok(_) => {
                &&& cond_fault(*operands) is None
                &&& final(w)@ == old(w)@.write(cond_text(*operands, locals@))
            },
            Err(e) => cond_fault(*operands) == Some(e@),
        },
    decreases *operands, 0nat,
{
    broadcast use lemma_write_chain;

    let test = step(0, expr_as(Type::Bool, &operands.0, locals, false))?;
    w.write_str("if ");
    w.write_str(test.as_str());
    w.write_str(" {");
    step(1, gen_expr(w, &operands.1, locals, false))?;
    w.write_str(" } else { ");
    step(2, gen_expr(w, &operands.2, locals, false))?;
    w.write_str(" }");
    Ok(())
}

/// Translates `expr` and writes the text to `w`. `nested` tells that `expr`
/// is the operand of an operator, so that a unary or binary operation goes
/// into parentheses. Returns the natural type of `expr`.
///
/// On a fault nothing is promised of what `w` holds.
pub fn gen_expr(w: &mut Writer, expr: &Expr, locals: &Locals, nested: bool) -> (r: Result<
    Type,
    ExprFault,
>)
    ensures
        match r {
            Ok(t) => {
                &&& expr_fault(*expr) is None
                &&& t == expr_type(*expr)
                &&& final(w)@ == old(w)@.write(expr_text(*expr, locals@, nested))
            },
            Err(e) => expr_fault(*expr) == Some(e@),
        },
    decreases *expr, 0nat,
{
    match expr {
        Expr::Num(num) => {
            gen_num(w, *num);
            Ok(Type::Num)
        },
        Expr::Var(name) => {
            let path = var_path(name.as_str(), locals);
            w.write_str(path.as_str());
            Ok(Type::Num)
        },
        Expr::Call(func, args) => {
            gen_call(w, func.as_str(), args, locals)?;
            Ok(Type::Num)
        },
        Expr::Unary(op, operand) => gen_unary(w, *op, operand, locals, nested),
        Expr::Binary(op, operands) => gen_binary(w, *op, operands, locals, nested),
        Expr::Cond(operands) => {
            gen_cond(w, operands, locals)?;
            Ok(Type::Num)
        },
    }
}

} // verus!

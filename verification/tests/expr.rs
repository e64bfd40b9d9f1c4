use seqgen::ast::{Arg, BinOp, Expr, Num, NumStyle, UnOp};
use seqgen::emitter::Writer;
use seqgen::expr::{bin_op, expr_as, gen_expr, un_op, ExprError, ExprFault, OpClass, Type};
use seqgen::scope::Locals;

fn dec(value: u64) -> Expr {
    Expr::Num(Num(value, NumStyle::Dec))
}

fn hex(value: u64) -> Expr {
    Expr::Num(Num(value, NumStyle::Hex))
}

fn var(name: &str) -> Expr {
    Expr::Var(name.to_string())
}

fn call(name: &str, args: Vec<Arg>) -> Expr {
    Expr::Call(name.to_string(), args)
}

fn text_arg(text: &str) -> Arg {
    Arg::String(text.to_string())
}

fn unary(op: UnOp, operand: Expr) -> Expr {
    Expr::Unary(op, Box::new(operand))
}

fn binary(op: BinOp, left: Expr, right: Expr) -> Expr {
    Expr::Binary(op, Box::new((left, right)))
}

fn cond(test: Expr, then: Expr, otherwise: Expr) -> Expr {
    Expr::Cond(Box::new((test, then, otherwise)))
}

fn located(kind: ExprError, path: Vec<usize>) -> ExprFault {
    ExprFault { kind, path }
}

fn translate(expr: &Expr, locals: &Locals, nested: bool) -> Result<(String, Type), ExprFault> {
    let mut w = Writer::new();
    let t = gen_expr(&mut w, expr, locals, nested)?;
    Ok((w.end(), t))
}

fn top(expr: &Expr) -> (String, Type) {
    translate(expr, &Locals::new(), false).unwrap()
}

fn operand(expr: &Expr) -> (String, Type) {
    translate(expr, &Locals::new(), true).unwrap()
}

#[test]
fn number_is_numeric() {
    assert_eq!(top(&dec(7)), ("u64(7)".to_string(), Type::Num));
    assert_eq!(top(&hex(0x1f)), ("u64(0x1f)".to_string(), Type::Num));
    assert_eq!(operand(&dec(7)), ("u64(7)".to_string(), Type::Num));
}

#[test]
fn variable_is_numeric_and_resolved() {
    let mut locals = Locals::new();
    locals.insert("a");
    assert_eq!(translate(&var("a"), &locals, false).unwrap(), ("l_a".to_string(), Type::Num));
    assert_eq!(
        translate(&var("b"), &locals, false).unwrap(),
        ("ctx.vars[\"b\"]".to_string(), Type::Num)
    );
    assert_eq!(
        translate(&var("__dp"), &locals, true).unwrap(),
        ("ctx.cmsis__dp".to_string(), Type::Num)
    );
}

#[test]
fn sequence_call_names_the_unit() {
    let e = call("Sequence", vec![text_arg("DebugPortStart")]);
    assert_eq!(top(&e), ("s_DebugPortStart(ctx)".to_string(), Type::Num));
    assert_eq!(operand(&e), ("s_DebugPortStart(ctx)".to_string(), Type::Num));
}

#[test]
fn sequence_call_without_arguments_is_a_fault() {
    let e = call("Sequence", vec![]);
    assert_eq!(
        translate(&e, &Locals::new(), false),
        Err(located(ExprError::SequenceArgCount { found: 0 }, vec![]))
    );
}

#[test]
fn sequence_call_with_two_arguments_is_a_fault() {
    let e = call("Sequence", vec![text_arg("A"), text_arg("B")]);
    assert_eq!(
        translate(&e, &Locals::new(), false),
        Err(located(ExprError::SequenceArgCount { found: 2 }, vec![]))
    );
}

#[test]
fn sequence_call_with_an_expression_is_a_fault() {
    let e = call("Sequence", vec![Arg::Expr(var("name"))]);
    assert_eq!(
        translate(&e, &Locals::new(), false),
        Err(located(ExprError::SequenceArgNotString, vec![]))
    );
}

#[test]
fn host_call_takes_its_arguments_in_order() {
    let e = call("Write32", vec![Arg::Expr(hex(0xE000EDF0)), Arg::Expr(hex(0xA05F0003))]);
    assert_eq!(
        top(&e),
        ("ctx.cmsis_Write32(u64(0xe000edf0), u64(0xa05f0003))".to_string(), Type::Num)
    );
}

#[test]
fn host_call_without_arguments() {
    assert_eq!(top(&call("ReadDP", vec![])).0, "ctx.cmsis_ReadDP()");
}

#[test]
fn host_call_quotes_strings() {
    let e = call("Message", vec![Arg::Expr(dec(0)), text_arg("core halted"), Arg::Expr(var("x"))]);
    assert_eq!(top(&e).0, "ctx.cmsis_Message(u64(0), \"core halted\", ctx.vars[\"x\"])");
}

#[test]
fn host_call_arguments_keep_their_natural_type() {
    let sum = binary(BinOp::Add, dec(1), dec(2));
    let less = binary(BinOp::Lt, var("a"), var("b"));
    let e = call("f", vec![Arg::Expr(sum), Arg::Expr(less)]);
    assert_eq!(
        top(&e).0,
        "ctx.cmsis_f(u64(1) + u64(2), ctx.vars[\"a\"] < ctx.vars[\"b\"])"
    );
}

#[test]
fn host_call_named_like_the_prefix_of_sequence() {
    let e = call("Sequences", vec![text_arg("A")]);
    assert_eq!(top(&e).0, "ctx.cmsis_Sequences(\"A\")");
}

#[test]
fn fault_in_an_argument_is_the_fault_of_the_call() {
    let inner = call("Sequence", vec![]);
    let e = call("f", vec![Arg::Expr(dec(1)), Arg::Expr(inner), text_arg("x")]);
    assert_eq!(
        translate(&e, &Locals::new(), false),
        Err(located(ExprError::SequenceArgCount { found: 0 }, vec![1]))
    );
}

#[test]
fn first_fault_in_order_is_reported() {
    let first = call("Sequence", vec![Arg::Expr(dec(1))]);
    let second = call("Sequence", vec![]);
    let e = binary(BinOp::Add, first, second);
    assert_eq!(
        translate(&e, &Locals::new(), false),
        Err(located(ExprError::SequenceArgNotString, vec![0]))
    );
    let first = call("Sequence", vec![]);
    let second = call("Sequence", vec![Arg::Expr(dec(1))]);
    let e = cond(dec(1), first, second);
    assert_eq!(
        translate(&e, &Locals::new(), false),
        Err(located(ExprError::SequenceArgCount { found: 0 }, vec![1]))
    );
}

#[test]
fn logical_not_takes_a_boolean() {
    assert_eq!(
        top(&unary(UnOp::Not, var("x"))),
        ("!toBoolean(ctx.vars[\"x\"])".to_string(), Type::Bool)
    );
    assert_eq!(
        operand(&unary(UnOp::Not, var("x"))),
        ("!toBoolean(ctx.vars[\"x\"])".to_string(), Type::Bool)
    );
}

#[test]
fn logical_not_of_a_comparison_needs_no_conversion() {
    let e = unary(UnOp::Not, binary(BinOp::Eq, var("x"), dec(1)));
    assert_eq!(top(&e), ("!(ctx.vars[\"x\"] == u64(1))".to_string(), Type::Bool));
}

#[test]
fn numeric_unary_operators() {
    assert_eq!(top(&unary(UnOp::Neg, dec(1))), ("-u64(1)".to_string(), Type::Num));
    assert_eq!(top(&unary(UnOp::BitNot, var("x"))), ("!ctx.vars[\"x\"]".to_string(), Type::Num));
    assert_eq!(top(&unary(UnOp::Pos, dec(1))), ("u64(1)".to_string(), Type::Num));
}

#[test]
fn numeric_unary_operators_as_operands() {
    assert_eq!(operand(&unary(UnOp::Neg, dec(1))).0, "(-u64(1))");
    assert_eq!(operand(&unary(UnOp::BitNot, var("x"))).0, "(!ctx.vars[\"x\"])");
    assert_eq!(operand(&unary(UnOp::Pos, dec(1))).0, "(u64(1))");
}

#[test]
fn unary_operand_is_nested() {
    let e = unary(UnOp::Neg, binary(BinOp::Add, dec(1), dec(2)));
    assert_eq!(top(&e).0, "-(u64(1) + u64(2))");
    let e = unary(UnOp::Neg, unary(UnOp::Neg, dec(1)));
    assert_eq!(top(&e).0, "-(-u64(1))");
}

#[test]
fn arithmetic_operators() {
    let cases = [
        (BinOp::Add, "+"),
        (BinOp::Sub, "-"),
        (BinOp::Mul, "*"),
        (BinOp::Div, "/"),
        (BinOp::Rem, "%"),
        (BinOp::BitXor, "^"),
        (BinOp::BitAnd, "&"),
        (BinOp::BitOr, "|"),
        (BinOp::Shr, ">>"),
        (BinOp::Shl, "<<"),
    ];
    for (op, sign) in cases {
        let e = binary(op, var("a"), dec(2));
        assert_eq!(top(&e), (format!("ctx.vars[\"a\"] {} u64(2)", sign), Type::Num));
    }
}

#[test]
fn comparison_operators() {
    let cases = [
        (BinOp::Lt, "<"),
        (BinOp::Le, "<="),
        (BinOp::Ge, ">="),
        (BinOp::Gt, ">"),
        (BinOp::Eq, "=="),
        (BinOp::Ne, "!="),
    ];
    for (op, sign) in cases {
        let e = binary(op, var("a"), dec(2));
        assert_eq!(top(&e), (format!("ctx.vars[\"a\"] {} u64(2)", sign), Type::Bool));
    }
}

#[test]
fn binary_operation_as_operand_goes_into_parentheses() {
    let e = binary(BinOp::Mul, binary(BinOp::Add, dec(1), dec(2)), dec(3));
    assert_eq!(top(&e).0, "(u64(1) + u64(2)) * u64(3)");
    assert_eq!(operand(&e).0, "((u64(1) + u64(2)) * u64(3))");
    let e = binary(BinOp::Sub, dec(1), binary(BinOp::Sub, dec(2), dec(3)));
    assert_eq!(top(&e).0, "u64(1) - (u64(2) - u64(3))");
}

#[test]
fn arithmetic_takes_operands_at_their_natural_type() {
    let e = binary(BinOp::Add, binary(BinOp::Lt, var("a"), var("b")), dec(1));
    assert_eq!(
        top(&e),
        ("(ctx.vars[\"a\"] < ctx.vars[\"b\"]) + u64(1)".to_string(), Type::Num)
    );
}

/// The decision on logical operators: both sides show the left operand, as
/// scripts in use do. The right operand does not appear.
#[test]
fn logical_operator_shows_the_left_operand_twice() {
    let e = binary(BinOp::And, var("a"), var("b"));
    let (text, t) = top(&e);
    assert_eq!(text, "toBoolean(ctx.vars[\"a\"]) && toBoolean(ctx.vars[\"a\"])");
    assert_eq!(t, Type::Bool);
    assert_ne!(text, "toBoolean(ctx.vars[\"a\"]) && toBoolean(ctx.vars[\"b\"])");
    let e = binary(BinOp::Or, var("a"), var("b"));
    let (text, t) = top(&e);
    assert_eq!(text, "toBoolean(ctx.vars[\"a\"]) || toBoolean(ctx.vars[\"a\"])");
    assert_eq!(t, Type::Bool);
    assert_ne!(text, "toBoolean(ctx.vars[\"a\"]) || toBoolean(ctx.vars[\"b\"])");
}

/// The other reading of a logical operator, which the translator does not
/// take: the right operand on the right side.
#[test]
fn logical_operator_does_not_show_the_right_operand() {
    let e = binary(BinOp::And, binary(BinOp::Eq, var("a"), dec(1)), unary(UnOp::Not, var("b")));
    let (text, _) = top(&e);
    assert_eq!(text, "(ctx.vars[\"a\"] == u64(1)) && (ctx.vars[\"a\"] == u64(1))");
    assert!(!text.contains("ctx.vars[\"b\"]"));
}

/// What is not translated is not checked either.
#[test]
fn fault_in_the_right_operand_of_a_logical_operator_is_not_found() {
    let e = binary(BinOp::Or, var("a"), call("Sequence", vec![]));
    assert_eq!(
        translate(&e, &Locals::new(), false),
        Ok(("toBoolean(ctx.vars[\"a\"]) || toBoolean(ctx.vars[\"a\"])".to_string(), Type::Bool))
    );
    let e = binary(BinOp::Or, call("Sequence", vec![]), var("a"));
    assert_eq!(
        translate(&e, &Locals::new(), false),
        Err(located(ExprError::SequenceArgCount { found: 0 }, vec![0]))
    );
}

#[test]
fn logical_operator_as_operand() {
    let e = binary(BinOp::And, var("a"), var("b"));
    assert_eq!(operand(&e).0, "(toBoolean(ctx.vars[\"a\"]) && toBoolean(ctx.vars[\"a\"]))");
}

#[test]
fn conditional_takes_its_test_as_a_boolean() {
    let e = cond(var("c"), dec(1), dec(2));
    assert_eq!(
        top(&e),
        ("if toBoolean(ctx.vars[\"c\"]) {u64(1) } else { u64(2) }".to_string(), Type::Num)
    );
}

#[test]
fn conditional_on_a_comparison() {
    let e = cond(binary(BinOp::Gt, var("x"), dec(0)), var("x"), unary(UnOp::Neg, var("x")));
    assert_eq!(
        top(&e).0,
        "if ctx.vars[\"x\"] > u64(0) {ctx.vars[\"x\"] } else { -ctx.vars[\"x\"] }"
    );
    assert_eq!(operand(&e).0, top(&e).0);
}

#[test]
fn no_conversion_where_the_type_is_the_one_asked_for() {
    let locals = Locals::new();
    let number = binary(BinOp::Add, var("a"), dec(1));
    assert_eq!(
        expr_as(Type::Num, &number, &locals, false).unwrap(),
        "ctx.vars[\"a\"] + u64(1)"
    );
    assert_eq!(expr_as(Type::Num, &number, &locals, false).unwrap(), top(&number).0);
    let truth = binary(BinOp::Lt, var("a"), dec(1));
    assert_eq!(
        expr_as(Type::Bool, &truth, &locals, false).unwrap(),
        "ctx.vars[\"a\"] < u64(1)"
    );
    assert_eq!(expr_as(Type::Bool, &truth, &locals, true).unwrap(), operand(&truth).0);
    assert_eq!(expr_as(Type::Num, &dec(1), &locals, false).unwrap(), "u64(1)");
    assert_eq!(
        expr_as(Type::Bool, &unary(UnOp::Not, var("a")), &locals, false).unwrap(),
        "!toBoolean(ctx.vars[\"a\"])"
    );
}

#[test]
fn conversion_to_boolean() {
    let locals = Locals::new();
    assert_eq!(expr_as(Type::Bool, &dec(1), &locals, false).unwrap(), "toBoolean(u64(1))");
    assert_eq!(
        expr_as(Type::Bool, &binary(BinOp::BitAnd, var("a"), dec(1)), &locals, true).unwrap(),
        "toBoolean((ctx.vars[\"a\"] & u64(1)))"
    );
}

#[test]
fn conversion_to_number() {
    let locals = Locals::new();
    assert_eq!(
        expr_as(Type::Num, &binary(BinOp::Lt, var("a"), dec(1)), &locals, false).unwrap(),
        "toNumeric(ctx.vars[\"a\"] < u64(1))"
    );
    assert_eq!(
        expr_as(Type::Num, &unary(UnOp::Not, var("a")), &locals, false).unwrap(),
        "toNumeric(!toBoolean(ctx.vars[\"a\"]))"
    );
}

#[test]
fn expr_as_reports_the_fault() {
    let e = unary(UnOp::Not, call("Sequence", vec![text_arg("A"), text_arg("B"), text_arg("C")]));
    assert_eq!(
        expr_as(Type::Bool, &e, &Locals::new(), false),
        Err(located(ExprError::SequenceArgCount { found: 3 }, vec![0]))
    );
}

#[test]
fn expression_is_indented_where_it_starts_a_line() {
    let mut w = Writer::new();
    w.indent();
    let t = gen_expr(&mut w, &binary(BinOp::Add, dec(1), dec(2)), &Locals::new(), false);
    assert_eq!(t, Ok(Type::Num));
    assert_eq!(w.end(), "    u64(1) + u64(2)");
}

#[test]
fn operator_tables() {
    assert_eq!(bin_op(BinOp::Shl), ("<<", OpClass::Plain));
    assert_eq!(bin_op(BinOp::Ne), ("!=", OpClass::Cmp));
    assert_eq!(bin_op(BinOp::And), ("&&", OpClass::Logic));
    assert_eq!(bin_op(BinOp::Or), ("||", OpClass::Logic));
    assert_eq!(un_op(UnOp::Not), "!");
    assert_eq!(un_op(UnOp::BitNot), "!");
    assert_eq!(un_op(UnOp::Pos), "");
    assert_eq!(un_op(UnOp::Neg), "-");
}

#[test]
fn fault_is_found_by_its_way() {
    let bad = call("Sequence", vec![text_arg("A"), text_arg("B")]);
    let inner = cond(var("c"), dec(1), unary(UnOp::Neg, bad));
    let e = binary(BinOp::Add, dec(1), call("f", vec![text_arg("x"), Arg::Expr(inner)]));
    assert_eq!(
        translate(&e, &Locals::new(), false),
        Err(located(ExprError::SequenceArgCount { found: 2 }, vec![1, 1, 2, 0]))
    );
}

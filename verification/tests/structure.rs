use seqgen::ast::{Arg, BinOp, Block, Control, Expr, Num, NumStyle, Stmt, Struct};
use seqgen::emitter::Writer;
use seqgen::expr::{ExprError, ExprFault};
use seqgen::scope::Locals;
use seqgen::structure::{gen_block, gen_body, gen_control};

fn lit(value: u64) -> Expr {
    Expr::Num(Num(value, NumStyle::Dec))
}

fn named(text: &str) -> Expr {
    Expr::Var(text.to_string())
}

fn host(name: &str) -> Expr {
    Expr::Call(name.to_string(), vec![])
}

fn bad_call() -> Expr {
    Expr::Call("Sequence".to_string(), vec![])
}

fn declare(name: &str, value: Expr) -> Stmt {
    Stmt::Declare(name.to_string(), value)
}

fn assign(name: &str, value: Expr) -> Stmt {
    Stmt::Assign(name.to_string(), value)
}

fn block(body: Vec<Stmt>) -> Struct {
    Struct::Block(Block { info: None, atomic: false, body })
}

fn control(body: Vec<Struct>) -> Control {
    Control { if_cond: None, info: None, while_cond: None, timeout: None, body }
}

fn lay_out(body: &Vec<Struct>, locals: &mut Locals) -> Result<String, ExprFault> {
    let mut w = Writer::new();
    gen_body(&mut w, body, locals)?;
    Ok(w.end())
}

fn plain(body: Vec<Struct>) -> String {
    lay_out(&body, &mut Locals::new()).unwrap()
}

#[test]
fn empty_body_emits_nothing() {
    assert_eq!(plain(vec![]), "");
    assert_eq!(plain(vec![Struct::Control(control(vec![]))]), "");
    assert_eq!(plain(vec![block(vec![])]), "");
}

#[test]
fn delay_loop_is_a_single_wait() {
    let node = Control {
        while_cond: Some(lit(5)),
        timeout: Some(200),
        ..control(vec![])
    };
    let text = plain(vec![Struct::Control(node)]);
    assert_eq!(text, "ctx.sleep(200);\n");
    assert!(!text.contains("while"));
}

#[test]
fn delay_loop_without_timeout_waits_for_nothing() {
    let node = Control { while_cond: Some(lit(1)), ..control(vec![]) };
    assert_eq!(plain(vec![Struct::Control(node)]), "ctx.sleep(0);\n");
}

#[test]
fn delay_loop_whatever_the_radix() {
    let node = Control {
        while_cond: Some(Expr::Num(Num(u64::MAX, NumStyle::Hex))),
        timeout: Some(1000000),
        ..control(vec![])
    };
    assert_eq!(plain(vec![Struct::Control(node)]), "ctx.sleep(1000000);\n");
}

#[test]
fn delay_loop_leaves_its_nodes_out() {
    let node = Control {
        while_cond: Some(lit(1)),
        timeout: Some(10),
        ..control(vec![block(vec![Stmt::Expr(host("f"))]), block(vec![Stmt::Expr(bad_call())])])
    };
    assert_eq!(plain(vec![Struct::Control(node)]), "ctx.sleep(10);\n");
}

#[test]
fn loop_on_literal_zero_is_a_loop() {
    let node = Control {
        while_cond: Some(lit(0)),
        timeout: None,
        ..control(vec![block(vec![Stmt::Expr(host("f"))])])
    };
    assert_eq!(
        plain(vec![Struct::Control(node)]),
        "while toBoolean(u64(0)) {\n    ctx.cmsis_f();\n}\n"
    );
}

#[test]
fn loop_with_timeout() {
    let node = Control {
        while_cond: Some(named("x")),
        timeout: Some(1000),
        ..control(vec![])
    };
    assert_eq!(
        plain(vec![Struct::Control(node)]),
        "{\n    let timeout = ctx.timeout(1000);\n    while toBoolean(ctx.vars[\"x\"]) {\n        timeout.check();\n    }\n}\n"
    );
}

#[test]
fn loop_with_timeout_checks_after_its_nodes() {
    let node = Control {
        while_cond: Some(named("x")),
        timeout: Some(1000),
        ..control(vec![block(vec![Stmt::Expr(host("a")), Stmt::Expr(host("b"))])])
    };
    let text = plain(vec![Struct::Control(node)]);
    assert_eq!(
        text,
        "{\n    let timeout = ctx.timeout(1000);\n    while toBoolean(ctx.vars[\"x\"]) {\n        ctx.cmsis_a();\n        ctx.cmsis_b();\n        timeout.check();\n    }\n}\n"
    );
    let allocation = text.find("ctx.timeout(1000)").unwrap();
    let head = text.find("while ").unwrap();
    let check = text.find("timeout.check();").unwrap();
    assert!(allocation < head);
    assert!(head < check);
    assert_eq!(text.matches("timeout.check();").count(), 1);
}

#[test]
fn loop_without_timeout() {
    let less = Expr::Binary(BinOp::Lt, Box::new((named("i"), lit(3))));
    let node = Control {
        while_cond: Some(less),
        ..control(vec![block(vec![Stmt::Expr(host("step"))])])
    };
    let text = plain(vec![Struct::Control(node)]);
    assert_eq!(text, "while ctx.vars[\"i\"] < u64(3) {\n    ctx.cmsis_step();\n}\n");
    assert!(!text.contains("timeout"));
}

#[test]
fn guard_wraps_the_node() {
    let node = Control {
        if_cond: Some(named("x")),
        info: Some("check".to_string()),
        ..control(vec![block(vec![Stmt::Expr(host("f"))])])
    };
    assert_eq!(
        plain(vec![Struct::Control(node)]),
        "if toBoolean(ctx.vars[\"x\"]) {\n    ctx.info(\"check\");\n    ctx.cmsis_f();\n}\n"
    );
}

#[test]
fn guard_around_a_delay() {
    let test = Expr::Binary(BinOp::Eq, Box::new((named("__protocol"), lit(2))));
    let node = Control {
        if_cond: Some(test),
        info: Some("wait".to_string()),
        while_cond: Some(lit(1)),
        timeout: Some(50),
        ..control(vec![])
    };
    assert_eq!(
        plain(vec![Struct::Control(node)]),
        "if ctx.cmsis__protocol == u64(2) {\n    ctx.info(\"wait\");\n    ctx.sleep(50);\n}\n"
    );
}

#[test]
fn guard_around_a_loop_with_timeout() {
    let node = Control {
        if_cond: Some(named("go")),
        while_cond: Some(named("busy")),
        timeout: Some(5),
        ..control(vec![block(vec![assign("n", lit(1))])])
    };
    assert_eq!(
        plain(vec![Struct::Control(node)]),
        "if toBoolean(ctx.vars[\"go\"]) {\n    {\n        let timeout = ctx.timeout(5);\n        while toBoolean(ctx.vars[\"busy\"]) {\n            ctx.vars[\"n\"] = u64(1);\n            timeout.check();\n        }\n    }\n}\n"
    );
}

#[test]
fn info_without_guard() {
    let node = Control { info: Some("start".to_string()), ..control(vec![]) };
    assert_eq!(plain(vec![Struct::Control(node)]), "ctx.info(\"start\");\n");
}

#[test]
fn control_without_condition_runs_its_nodes_once() {
    let node = control(vec![block(vec![Stmt::Expr(host("a"))]), block(vec![Stmt::Expr(host("b"))])]);
    assert_eq!(plain(vec![Struct::Control(node)]), "ctx.cmsis_a();\nctx.cmsis_b();\n");
}

#[test]
fn atomic_block_keeps_the_order_of_its_statements() {
    let node = Struct::Block(Block {
        info: None,
        atomic: true,
        body: vec![Stmt::Expr(host("first")), Stmt::Expr(host("second"))],
    });
    let text = plain(vec![node]);
    assert_eq!(text, "// atomic\n{\n    ctx.cmsis_first();\n    ctx.cmsis_second();\n}\n");
    assert!(text.find("first").unwrap() < text.find("second").unwrap());
}

#[test]
fn atomic_block_with_info() {
    let node = Struct::Block(Block {
        info: Some("critical".to_string()),
        atomic: true,
        body: vec![assign("a", lit(1))],
    });
    assert_eq!(
        plain(vec![node]),
        "ctx.info(\"critical\");\n// atomic\n{\n    ctx.vars[\"a\"] = u64(1);\n}\n"
    );
}

#[test]
fn plain_block_with_info() {
    let node = Struct::Block(Block {
        info: Some("hello".to_string()),
        atomic: false,
        body: vec![assign("a", lit(1)), assign("b", lit(2))],
    });
    assert_eq!(
        plain(vec![node]),
        "ctx.info(\"hello\");\nctx.vars[\"a\"] = u64(1);\nctx.vars[\"b\"] = u64(2);\n"
    );
}

#[test]
fn declaration_in_a_nested_body_ends_with_the_node() {
    let inner = block(vec![declare("n", lit(1)), assign("n", lit(2))]);
    let body = vec![Struct::Control(control(vec![inner])), block(vec![assign("n", lit(3))])];
    let mut locals = Locals::new();
    assert_eq!(
        lay_out(&body, &mut locals).unwrap(),
        "let l_n = u64(1);\nl_n = u64(2);\nctx.vars[\"n\"] = u64(3);\n"
    );
    assert!(!locals.contains("n"));
}

#[test]
fn declaration_in_a_loop_body_ends_with_the_loop() {
    let inner = block(vec![declare("n", lit(1)), Stmt::Expr(named("n"))]);
    let looped = Control { while_cond: Some(named("n")), ..control(vec![inner]) };
    let body = vec![Struct::Control(looped), block(vec![Stmt::Expr(named("n"))])];
    assert_eq!(
        plain(body),
        "while toBoolean(ctx.vars[\"n\"]) {\n    let l_n = u64(1);\n    l_n;\n}\nctx.vars[\"n\"];\n"
    );
}

#[test]
fn declaration_in_a_block_stays_for_the_nodes_that_follow() {
    let body = vec![
        block(vec![declare("a", lit(1))]),
        block(vec![assign("a", lit(2))]),
        Struct::Control(control(vec![block(vec![assign("a", lit(3))])])),
    ];
    let mut locals = Locals::new();
    assert_eq!(
        lay_out(&body, &mut locals).unwrap(),
        "let l_a = u64(1);\nl_a = u64(2);\nl_a = u64(3);\n"
    );
    assert!(locals.contains("a"));
}

#[test]
fn declaration_in_an_atomic_block_stays_too() {
    let first = Struct::Block(Block { info: None, atomic: true, body: vec![declare("a", lit(1))] });
    let body = vec![first, block(vec![assign("a", lit(2))])];
    assert_eq!(plain(body), "// atomic\n{\n    let l_a = u64(1);\n}\nl_a = u64(2);\n");
}

#[test]
fn conditions_see_the_locals_of_the_node() {
    let mut locals = Locals::new();
    locals.insert("ready");
    let node = Control {
        if_cond: Some(named("ready")),
        while_cond: Some(named("ready")),
        ..control(vec![])
    };
    assert_eq!(
        lay_out(&vec![Struct::Control(node)], &mut locals).unwrap(),
        "if toBoolean(l_ready) {\n    while toBoolean(l_ready) {\n    }\n}\n"
    );
}

#[test]
fn line_break_in_an_info_starts_an_indented_line() {
    let node = Control {
        if_cond: Some(lit(1)),
        info: Some("one\ntwo".to_string()),
        ..control(vec![])
    };
    assert_eq!(
        plain(vec![Struct::Control(node)]),
        "if toBoolean(u64(1)) {\n    ctx.info(\"one\n    two\");\n}\n"
    );
}

#[test]
fn fault_in_a_guard() {
    let node = Control { if_cond: Some(bad_call()), ..control(vec![]) };
    assert_eq!(
        lay_out(&vec![Struct::Control(node)], &mut Locals::new()),
        Err(ExprFault { kind: ExprError::SequenceArgCount { found: 0 }, path: vec![0, 0] })
    );
}

#[test]
fn fault_in_a_loop_condition() {
    let cond = Expr::Call("Sequence".to_string(), vec![Arg::Expr(lit(1))]);
    let node = Control { while_cond: Some(cond), timeout: Some(1), ..control(vec![]) };
    assert_eq!(
        lay_out(&vec![Struct::Control(node)], &mut Locals::new()),
        Err(ExprFault { kind: ExprError::SequenceArgNotString, path: vec![0, 1] })
    );
}

#[test]
fn fault_in_a_nested_block() {
    let inner = block(vec![assign("a", lit(1)), Stmt::Expr(bad_call())]);
    let body = vec![block(vec![]), Struct::Control(control(vec![inner]))];
    assert_eq!(
        lay_out(&body, &mut Locals::new()),
        Err(ExprFault { kind: ExprError::SequenceArgCount { found: 0 }, path: vec![1, 2, 0, 1] })
    );
}

#[test]
fn block_alone() {
    let mut w = Writer::new();
    w.indent();
    let mut locals = Locals::new();
    let node = Block { info: None, atomic: true, body: vec![declare("a", lit(1))] };
    assert_eq!(gen_block(&mut w, &node, &mut locals), Ok(()));
    assert_eq!(w.end(), "    // atomic\n    {\n        let l_a = u64(1);\n    }\n");
    assert!(locals.contains("a"));
}

#[test]
fn control_alone() {
    let mut w = Writer::new();
    w.indent();
    let locals = Locals::new();
    let node = Control {
        while_cond: Some(lit(1)),
        timeout: Some(500),
        ..control(vec![])
    };
    assert_eq!(gen_control(&mut w, &node, &locals), Ok(()));
    assert_eq!(w.end(), "    ctx.sleep(500);\n");
}

#[test]
fn fault_in_a_loop_body_is_found_by_its_way() {
    let call = Expr::Call("f".to_string(), vec![Arg::Expr(lit(1)), Arg::Expr(bad_call())]);
    let inner = block(vec![Stmt::Expr(host("a")), assign("x", call)]);
    let looped = Control {
        while_cond: Some(named("busy")),
        timeout: Some(3),
        ..control(vec![block(vec![]), inner])
    };
    let body = vec![block(vec![]), block(vec![]), Struct::Control(looped)];
    assert_eq!(
        lay_out(&body, &mut Locals::new()),
        Err(ExprFault {
            kind: ExprError::SequenceArgCount { found: 0 },
            path: vec![2, 2, 1, 1, 1],
        })
    );
}

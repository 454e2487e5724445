use tree_eval::{
    eval, run, run_file, Binary, BinaryOp, Bool, Call, EvalError, File, Function, If, Int, Let,
    Parameter, Print, Scope, Str, Term, Val, Var,
};

fn num(n: i32) -> Term {
    Term::Int(Int { value: n })
}

fn text(s: &str) -> Term {
    Term::Str(Str { value: s.to_string() })
}

fn boolean(b: bool) -> Term {
    Term::Bool(Bool { value: b })
}

fn var(name: &str) -> Term {
    Term::Var(Var { text: name.to_string() })
}

fn print(t: Term) -> Term {
    Term::Print(Print { value: Box::new(t) })
}

fn bin(op: BinaryOp, lhs: Term, rhs: Term) -> Term {
    Term::Binary(Binary { rhs: Box::new(rhs), op, lhs: Box::new(lhs) })
}

fn cond(c: Term, t: Term, o: Term) -> Term {
    Term::If(If { condition: Box::new(c), then_branch: Box::new(t), otherwise: Box::new(o) })
}

fn let_in(name: &str, value: Term, next: Term) -> Term {
    Term::Let(Let {
        name: Parameter { text: name.to_string() },
        value: Box::new(value),
        next: Box::new(next),
    })
}

fn func(params: &[&str], body: Term) -> Term {
    Term::Function(Function {
        parameters: params.iter().map(|p| Parameter { text: p.to_string() }).collect(),
        value: Box::new(body),
    })
}

fn call(callee: Term, arguments: Vec<Term>) -> Term {
    Term::Call(Call { callee: Box::new(callee), arguments })
}

fn value_of(t: &Term) -> Result<Val, EvalError> {
    run(t, 200).1
}

fn expect_int(t: &Term, n: i32) {
    match value_of(t) {
        Ok(Val::Int(m)) => assert_eq!(m, n),
        other => panic!("expected Int({n}), got {other:?}"),
    }
}

fn expect_str(t: &Term, s: &str) {
    match value_of(t) {
        Ok(Val::Str(r)) => assert_eq!(r, s),
        other => panic!("expected Str({s:?}), got {other:?}"),
    }
}

fn expect_bool(t: &Term, b: bool) {
    match value_of(t) {
        Ok(Val::Bool(r)) => assert_eq!(r, b),
        other => panic!("expected Bool({b}), got {other:?}"),
    }
}

fn expect_err(t: &Term, e: EvalError) {
    match value_of(t) {
        Err(r) => assert_eq!(r, e),
        other => panic!("expected {e:?}, got {other:?}"),
    }
}

#[test]
fn integer_operators() {
    expect_int(&bin(BinaryOp::Add, num(2), num(3)), 5);
    expect_int(&bin(BinaryOp::Add, num(-7), num(3)), -4);
    expect_int(&bin(BinaryOp::Sub, num(2), num(3)), -1);
    expect_int(&bin(BinaryOp::Sub, num(10), num(-5)), 15);
    expect_bool(&bin(BinaryOp::Lt, num(2), num(3)), true);
    expect_bool(&bin(BinaryOp::Lt, num(3), num(3)), false);
    expect_bool(&bin(BinaryOp::Lt, num(4), num(-3)), false);
}

#[test]
fn integer_overflow_fails() {
    expect_err(&bin(BinaryOp::Add, num(i32::MAX), num(1)), EvalError::Overflow);
    expect_err(&bin(BinaryOp::Sub, num(i32::MIN), num(1)), EvalError::Overflow);
    expect_int(&bin(BinaryOp::Add, num(i32::MAX), num(0)), i32::MAX);
}

#[test]
fn string_integer_concatenation_keeps_order() {
    expect_str(&bin(BinaryOp::Add, text("x"), num(1)), "x1");
    expect_str(&bin(BinaryOp::Add, num(1), text("x")), "1x");
    expect_str(&bin(BinaryOp::Add, text("ab"), text("cd")), "abcd");
    expect_str(&bin(BinaryOp::Add, text("n="), num(-42)), "n=-42");
    expect_str(&bin(BinaryOp::Add, num(i32::MIN), text("")), "-2147483648");
    expect_str(&bin(BinaryOp::Add, num(1200), text("!")), "1200!");
}

#[test]
fn invalid_operations() {
    expect_err(&bin(BinaryOp::Add, boolean(true), num(1)), EvalError::InvalidOperation);
    expect_err(&bin(BinaryOp::Sub, text("a"), num(1)), EvalError::InvalidOperation);
    expect_err(&bin(BinaryOp::Lt, text("a"), text("b")), EvalError::InvalidOperation);
    expect_err(&bin(BinaryOp::Add, func(&[], num(1)), num(1)), EvalError::InvalidOperation);
}

#[test]
fn later_binding_overwrites_earlier() {
    let t = let_in("x", num(1), let_in("x", num(2), var("x")));
    expect_int(&t, 2);
}

#[test]
fn binding_stays_visible_after_let() {
    let t = bin(BinaryOp::Add, let_in("x", num(1), var("x")), var("x"));
    expect_int(&t, 2);
}

#[test]
fn closure_keeps_captured_snapshot() {
    let t = let_in(
        "y",
        num(1),
        let_in("f", func(&[], var("y")), let_in("y", num(2), call(var("f"), vec![]))),
    );
    expect_int(&t, 1);
}

#[test]
fn closure_does_not_see_caller_bindings() {
    let t = let_in("f", func(&[], var("z")), let_in("z", num(5), call(var("f"), vec![])));
    expect_err(&t, EvalError::UnboundVariable);
}

#[test]
fn call_binds_parameters() {
    let add = func(&["a", "b"], bin(BinaryOp::Sub, var("a"), var("b")));
    expect_int(&call(add, vec![num(10), num(4)]), 6);
    let twice = func(&["x", "x"], var("x"));
    expect_int(&call(twice, vec![num(1), num(2)]), 2);
}

#[test]
fn closures_are_values() {
    let make_adder = func(&["n"], func(&["m"], bin(BinaryOp::Add, var("n"), var("m"))));
    let t = let_in("add3", call(make_adder, vec![num(3)]), call(var("add3"), vec![num(4)]));
    expect_int(&t, 7);
}

#[test]
fn arity_mismatch_for_every_wrong_count() {
    for n in [0usize, 2, 3] {
        let args: Vec<Term> = (0..n).map(|i| num(i as i32)).collect();
        let t = let_in("f", func(&["a"], var("a")), call(var("f"), args));
        expect_err(&t, EvalError::ArityMismatch);
    }
    expect_err(&call(func(&[], num(0)), vec![num(1)]), EvalError::ArityMismatch);
}

#[test]
fn not_callable() {
    expect_err(&call(num(1), vec![]), EvalError::NotCallable);
    expect_err(&call(text("f"), vec![num(1)]), EvalError::NotCallable);
}

#[test]
fn if_true_never_evaluates_otherwise() {
    let bad = bin(BinaryOp::Sub, boolean(true), text("x"));
    expect_int(&cond(boolean(true), num(1), bad), 1);
    let bad = bin(BinaryOp::Sub, boolean(true), text("x"));
    expect_int(&cond(boolean(false), bad, num(2)), 2);
    let (out, r) = run(&cond(boolean(true), num(1), print(text("no"))), 50);
    assert!(matches!(r, Ok(Val::Int(1))));
    assert_eq!(out, "");
}

#[test]
fn invalid_condition() {
    expect_err(&cond(num(1), num(1), num(2)), EvalError::InvalidCondition);
    expect_err(&cond(bin(BinaryOp::Lt, num(1), text("a")), num(1), num(2)), EvalError::InvalidOperation);
}

#[test]
fn unbound_variable() {
    expect_err(&var("nope"), EvalError::UnboundVariable);
}

#[test]
fn print_sum_outputs_three() {
    let (out, r) = run(&print(bin(BinaryOp::Add, num(1), num(2))), 50);
    assert!(matches!(r, Ok(Val::Void)));
    assert_eq!(out, "3");
}

#[test]
fn print_identity_call_outputs_hi() {
    let t = let_in("id", func(&["x"], var("x")), print(call(var("id"), vec![text("hi")])));
    let (out, r) = run(&t, 50);
    assert!(matches!(r, Ok(Val::Void)));
    assert_eq!(out, "hi");
}

#[test]
fn print_renders_each_kind() {
    let t = let_in(
        "a",
        print(boolean(true)),
        let_in("b", print(boolean(false)), let_in("c", print(num(-12)), print(text(" s")))),
    );
    let (out, r) = run(&t, 50);
    assert!(matches!(r, Ok(Val::Void)));
    assert_eq!(out, "truefalse-12 s");
}

#[test]
fn print_of_void_or_closure_fails_and_keeps_output() {
    let (out, r) = run(&print(print(num(7))), 50);
    assert_eq!(out, "7");
    assert!(matches!(r, Err(EvalError::UnsupportedPrintValue)));
    expect_err(&print(func(&["x"], var("x"))), EvalError::UnsupportedPrintValue);
}

#[test]
fn operands_and_arguments_run_left_to_right() {
    let t = call(func(&["a", "b"], num(0)), vec![print(text("L")), print(text("R"))]);
    let (out, r) = run(&t, 50);
    assert_eq!(out, "LR");
    assert!(matches!(r, Ok(Val::Int(0))));
    let t = bin(BinaryOp::Add, let_in("u", print(num(1)), num(0)), let_in("v", print(num(2)), num(0)));
    let (out, _) = run(&t, 50);
    assert_eq!(out, "12");
}

#[test]
fn depth_budget_is_enforced() {
    let t = bin(BinaryOp::Add, num(1), num(2));
    assert!(matches!(run(&t, 1).1, Err(EvalError::DepthExceeded)));
    assert!(matches!(run(&t, 2).1, Ok(Val::Int(3))));
    let omega = func(&["x"], call(var("x"), vec![var("x")]));
    let t = call(omega, vec![func(&["x"], call(var("x"), vec![var("x")]))]);
    assert!(matches!(run(&t, 300).1, Err(EvalError::DepthExceeded)));
}

#[test]
fn run_file_evaluates_expression() {
    let file = File { name: "demo".to_string(), expression: print(text("ok")) };
    let (out, r) = run_file(&file, 10);
    assert_eq!(out, "ok");
    assert!(matches!(r, Ok(Val::Void)));
}

#[test]
fn scope_bind_lookup_snapshot() {
    let mut scope = Scope::new();
    assert!(scope.lookup(&"x".to_string()).is_none());
    scope.bind("x".to_string(), Val::Int(1));
    let snap = scope.snapshot();
    scope.bind("x".to_string(), Val::Int(2));
    assert!(matches!(scope.lookup(&"x".to_string()), Some(Val::Int(2))));
    assert!(matches!(snap.lookup(&"x".to_string()), Some(Val::Int(1))));
}

#[test]
fn eval_threads_scope_and_output() {
    let mut scope = Scope::new();
    let mut out = String::from(">");
    let r = eval(&let_in("k", num(9), print(var("k"))), &mut scope, &mut out, 20);
    assert!(matches!(r, Ok(Val::Void)));
    assert_eq!(out, ">9");
    assert!(matches!(scope.lookup(&"k".to_string()), Some(Val::Int(9))));
}

#[test]
fn term_copy_evaluates_alike() {
    let t = let_in("f", func(&["a"], bin(BinaryOp::Add, var("a"), text("!"))), call(var("f"), vec![num(5)]));
    let c = t.copy();
    assert_eq!(c, t);
    expect_str(&c, "5!");
}

//! Properties of the language, proved from the evaluation function.
use vstd::prelude::*;
use crate::ast::{BinaryOp, Expr};
use crate::semantics::{eval_args, eval_expr, EvalError};
use crate::text::decimal;
use crate::value::{Env, Value};

verus! {

/// A list of integer literals.
pub open spec fn int_literals(ns: Seq<i32>) -> Seq<Expr> {
    ns.map_values(|n: i32| Expr::Int(n))
}

/// Integer literals evaluate to themselves whatever the environment, which
/// they leave unchanged, and print nothing.
pub proof fn lemma_int_literal_args(ns: Seq<i32>, env: Env, fuel: nat)
    ensures
        eval_args(int_literals(ns), env, fuel).result == eval_args(
            int_literals(ns),
            Map::empty(),
            fuel,
        ).result,
        eval_args(int_literals(ns), env, fuel).env == env,
        eval_args(int_literals(ns), env, fuel).out == Seq::<char>::empty(),
        fuel > 0 ==> eval_args(int_literals(ns), env, fuel).result == Ok::<Seq<Value>, EvalError>(
            ns.map_values(|n: i32| Value::Int(n)),
        ),
    decreases ns.len(),
{
    if ns.len() > 0 {
        assert(int_literals(ns).drop_last() =~= int_literals(ns.drop_last()));
        assert(int_literals(ns).last() == Expr::Int(ns.last()));
        lemma_int_literal_args(ns.drop_last(), env, fuel);
        lemma_int_literal_args(ns.drop_last(), Map::empty(), fuel);
        let p = eval_args(int_literals(ns.drop_last()), env, fuel);
        let q = eval_args(int_literals(ns.drop_last()), Map::empty(), fuel);
        let r = eval_expr(Expr::Int(ns.last()), p.env, fuel);
        let t = eval_expr(Expr::Int(ns.last()), q.env, fuel);
        assert(r.result == t.result);
        assert(r.env == env);
        assert(ns.map_values(|n: i32| Value::Int(n)) =~= ns.drop_last().map_values(
            |n: i32| Value::Int(n),
        ).push(Value::Int(ns.last())));
        assert(Seq::<char>::empty() + Seq::<char>::empty() =~= Seq::<char>::empty());
    } else {
        assert(ns.map_values(|n: i32| Value::Int(n)) =~= Seq::<Value>::empty());
    }
}

/// Adding, subtracting and comparing two integer literals gives their sum,
/// their difference and their order; a sum or difference that does not fit
/// in 32 bits fails with `Overflow`.
pub proof fn law_integer_operators(a: i32, b: i32, env: Env, fuel: nat)
    requires
        fuel >= 2,
    ensures
        eval_expr(Expr::Binary(BinaryOp::Add, Box::new(Expr::Int(a)), Box::new(Expr::Int(b))), env, fuel).result
            == if i32::MIN <= a + b <= i32::MAX {
            Ok::<Value, EvalError>(Value::Int((a + b) as i32))
        } else {
            Err::<Value, EvalError>(EvalError::Overflow)
        },
        eval_expr(Expr::Binary(BinaryOp::Sub, Box::new(Expr::Int(a)), Box::new(Expr::Int(b))), env, fuel).result
            == if i32::MIN <= a - b <= i32::MAX {
            Ok::<Value, EvalError>(Value::Int((a - b) as i32))
        } else {
            Err::<Value, EvalError>(EvalError::Overflow)
        },
        eval_expr(Expr::Binary(BinaryOp::Lt, Box::new(Expr::Int(a)), Box::new(Expr::Int(b))), env, fuel).result
            == Ok::<Value, EvalError>(Value::Bool(a < b)),
{
    let g = (fuel - 1) as nat;
    assert(eval_expr(Expr::Int(a), env, g).result == Ok::<Value, EvalError>(Value::Int(a)));
    assert(eval_expr(Expr::Int(b), env, g).result == Ok::<Value, EvalError>(Value::Int(b)));
}

/// Adding a string and an integer concatenates in operand order: the
/// integer's decimal text goes where the integer stood.
pub proof fn law_mixed_concatenation_order(s: Seq<char>, n: i32, env: Env, fuel: nat)
    requires
        fuel >= 2,
    ensures
        eval_expr(Expr::Binary(BinaryOp::Add, Box::new(Expr::Str(s)), Box::new(Expr::Int(n))), env, fuel).result
            == Ok::<Value, EvalError>(Value::Str(s + decimal(n as int))),
        eval_expr(Expr::Binary(BinaryOp::Add, Box::new(Expr::Int(n)), Box::new(Expr::Str(s))), env, fuel).result
            == Ok::<Value, EvalError>(Value::Str(decimal(n as int) + s)),
{
    let g = (fuel - 1) as nat;
    assert(eval_expr(Expr::Int(n), env, g).result == Ok::<Value, EvalError>(Value::Int(n)));
    assert(eval_expr(Expr::Str(s), env, g).result == Ok::<Value, EvalError>(Value::Str(s)));
}

/// Binding a name a second time hides the first binding from everything
/// evaluated later.
pub proof fn law_rebinding_overwrites(x: Seq<char>, first: i32, second: i32, env: Env, fuel: nat)
    requires
        fuel >= 4,
    ensures
        eval_expr(
            Expr::Let(
                x,
                Box::new(Expr::Int(first)),
                Box::new(Expr::Let(x, Box::new(Expr::Int(second)), Box::new(Expr::Var(x)))),
            ),
            env,
            fuel,
        ).result == Ok::<Value, EvalError>(Value::Int(second)),
{
    let f = (fuel - 1) as nat;
    let g = (f - 1) as nat;
    let e1 = env.insert(x, Value::Int(first));
    let e2 = e1.insert(x, Value::Int(second));
    let h = (g - 1) as nat;
    assert(eval_expr(Expr::Int(first), env, f).result == Ok::<Value, EvalError>(Value::Int(first)));
    assert(eval_expr(Expr::Int(first), env, f).env == env);
    assert(eval_expr(Expr::Int(second), e1, g).result == Ok::<Value, EvalError>(Value::Int(second)));
    assert(eval_expr(Expr::Int(second), e1, g).env == e1);
    assert(eval_expr(Expr::Var(x), e2, g).result == Ok::<Value, EvalError>(Value::Int(second)));
    assert(eval_expr(Expr::Let(x, Box::new(Expr::Int(second)), Box::new(Expr::Var(x))), e1, f).result
        == Ok::<Value, EvalError>(Value::Int(second)));
}

/// A closure evaluates its body in the environment it captured: binding
/// another name in the caller's environment after the closure was made does
/// not change what calling it yields or prints.
pub proof fn law_closure_captures_snapshot(
    params: Seq<Seq<char>>,
    body: Expr,
    env: Env,
    f: Seq<char>,
    x: Seq<char>,
    v: Value,
    args: Seq<i32>,
    fuel: nat,
)
    requires
        f != x,
        fuel >= 1,
    ensures
        ({
            let made = eval_expr(Expr::Function(params, Box::new(body)), env, fuel);
            let before = made.env.insert(f, made.result->Ok_0);
            let later = before.insert(x, v);
            let call = Expr::Call(Box::new(Expr::Var(f)), int_literals(args));
            &&& made.result == Ok::<Value, EvalError>(Value::Closure { params, body, env })
            &&& made.env == env
            &&& eval_expr(call, later, fuel).result == eval_expr(call, before, fuel).result
            &&& eval_expr(call, later, fuel).out == eval_expr(call, before, fuel).out
        }),
{
    let made = eval_expr(Expr::Function(params, Box::new(body)), env, fuel);
    let before = made.env.insert(f, made.result->Ok_0);
    let later = before.insert(x, v);
    let call = Expr::Call(Box::new(Expr::Var(f)), int_literals(args));
    assert(later[f] == before[f]);
    if fuel >= 2 {
        let g = (fuel - 1) as nat;
        let c1 = eval_expr(Expr::Var(f), before, g);
        let c2 = eval_expr(Expr::Var(f), later, g);
        assert(c1.result == c2.result);
        assert(c1.env == before && c2.env == later);
        assert(c1.out == Seq::<char>::empty() && c2.out == Seq::<char>::empty());
        lemma_int_literal_args(args, before, g);
        lemma_int_literal_args(args, later, g);
        let a1 = eval_args(int_literals(args), before, g);
        let a2 = eval_args(int_literals(args), later, g);
        assert(a1.result == a2.result);
        assert(a1.out == a2.out);
        assert(eval_expr(call, later, fuel).result == eval_expr(call, before, fuel).result);
        assert(eval_expr(call, later, fuel).out == eval_expr(call, before, fuel).out);
    } else {
        assert(eval_expr(Expr::Var(f), later, 0).result == eval_expr(Expr::Var(f), before, 0).result);
        assert(eval_expr(call, later, fuel).result == eval_expr(call, before, fuel).result);
    }
}

/// A call whose argument count differs from the callee's parameter count
/// fails with `ArityMismatch`.
pub proof fn law_arity_mismatch(f: Seq<char>, args: Seq<i32>, env: Env, fuel: nat)
    requires
        env.contains_key(f),
        env[f] is Closure,
        env[f]->Closure_params.len() != args.len(),
        fuel >= 2,
    ensures
        eval_expr(Expr::Call(Box::new(Expr::Var(f)), int_literals(args)), env, fuel).result
            == Err::<Value, EvalError>(EvalError::ArityMismatch),
{
    let g = (fuel - 1) as nat;
    let c = eval_expr(Expr::Var(f), env, g);
    assert(c.result == Ok::<Value, EvalError>(env[f]));
    assert(c.env == env);
    lemma_int_literal_args(args, env, g);
    let a = eval_args(int_literals(args), env, g);
    assert(a.result->Ok_0.len() == args.len());
}

/// An `If` whose condition is `true` yields exactly what its first branch
/// yields: the other branch is never evaluated, whatever it holds.
pub proof fn law_if_true_skips_otherwise(
    consequent: Expr,
    otherwise: Expr,
    env: Env,
    fuel: nat,
)
    requires
        fuel >= 2,
    ensures
        eval_expr(Expr::If(Box::new(Expr::Bool(true)), Box::new(consequent), Box::new(otherwise)), env, fuel)
            == eval_expr(consequent, env, (fuel - 1) as nat),
{
    let g = (fuel - 1) as nat;
    let r = eval_expr(consequent, env, g);
    let c = eval_expr(Expr::Bool(true), env, g);
    assert(c.result == Ok::<Value, EvalError>(Value::Bool(true)));
    assert(c.env == env);
    assert(c.out == Seq::<char>::empty());
    assert(c.out + r.out =~= r.out);
}

} // verus!

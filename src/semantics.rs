//! The meaning of a program: a big-step evaluation function over the models,
//! with a depth budget that every nested evaluation spends one unit of.
use vstd::prelude::*;
use crate::ast::{BinaryOp, Expr};
use crate::text::decimal;
use crate::value::{Env, Val, Value};

verus! {

/// Why an evaluation stopped.
#[derive(Debug, Clone, Copy, PartialEq, Eq)]
pub enum EvalError {
    /// `Print` was handed `Void` or a closure.
    UnsupportedPrintValue,
    /// An operator was applied to operands it is not defined on.
    InvalidOperation,
    /// An `If` condition was not a boolean.
    InvalidCondition,
    /// A name was read that has no binding.
    UnboundVariable,
    /// A call passed a number of arguments other than the number of parameters.
    ArityMismatch,
    /// A call's callee was not a closure.
    NotCallable,
    /// An integer result does not fit in 32 bits.
    Overflow,
    /// The nesting of evaluations went deeper than the budget allows.
    DepthExceeded,
}

/// What one evaluation did: its result, the environment after it, and the
/// text it printed.
pub struct Step {
    pub result: Result<Value, EvalError>,
    pub env: Env,
    pub out: Seq<char>,
}

/// What the evaluation of an argument list did.
pub struct ArgsStep {
    pub result: Result<Seq<Value>, EvalError>,
    pub env: Env,
    pub out: Seq<char>,
}

/// The model of an executable result.
pub open spec fn result_model(r: Result<Val, EvalError>) -> Result<Value, EvalError> {
    match r {
        Ok(v) => Ok(v.model()),
        Err(e) => Err(e),
    }
}

/// The models of a list of values.
pub open spec fn models(vs: Seq<Val>) -> Seq<Value> {
    vs.map_values(|v: Val| v.model())
}

pub open spec fn true_text() -> Seq<char> {
    seq!['t', 'r', 'u', 'e']
}

pub open spec fn false_text() -> Seq<char> {
    seq!['f', 'a', 'l', 's', 'e']
}

/// The text that `Print` emits for a value; none for `Void` and closures.
pub open spec fn render(v: Value) -> Option<Seq<char>> {
    match v {
        Value::Int(n) => Some(decimal(n as int)),
        Value::Str(s) => Some(s),
        Value::Bool(b) => Some(
            if b {
                true_text()
            } else {
                false_text()
            },
        ),
        _ => None,
    }
}

/// An integer result, when it fits in 32 bits.
pub open spec fn int_result(n: int) -> Result<Value, EvalError> {
    if i32::MIN <= n <= i32::MAX {
        Ok(Value::Int(n as i32))
    } else {
        Err(EvalError::Overflow)
    }
}

/// The result of a binary operator on two values.
pub open spec fn apply_op(op: BinaryOp, x: Value, y: Value) -> Result<Value, EvalError> {
    match op {
        BinaryOp::Add => match (x, y) {
            (Value::Int(a), Value::Int(b)) => int_result(a + b),
            (Value::Str(s), Value::Str(t)) => Ok(Value::Str(s + t)),
            (Value::Str(s), Value::Int(b)) => Ok(Value::Str(s + decimal(b as int))),
            (Value::Int(a), Value::Str(t)) => Ok(Value::Str(decimal(a as int) + t)),
            _ => Err(EvalError::InvalidOperation),
        },
        BinaryOp::Sub => match (x, y) {
            (Value::Int(a), Value::Int(b)) => int_result(a - b),
            _ => Err(EvalError::InvalidOperation),
        },
        BinaryOp::Lt => match (x, y) {
            (Value::Int(a), Value::Int(b)) => Ok(Value::Bool(a < b)),
            _ => Err(EvalError::InvalidOperation),
        },
    }
}

/// `env` with each parameter bound, in order, to the value at its position.
pub open spec fn bind_all(env: Env, params: Seq<Seq<char>>, vals: Seq<Value>) -> Env
    decreases params.len(),
{
    if params.len() == 0 {
        env
    } else {
        bind_all(env, params.drop_last(), vals.drop_last()).insert(params.last(), vals.last())
    }
}

/// A step that failed with `e`.
pub open spec fn failed(e: EvalError, env: Env, out: Seq<char>) -> Step {
    Step { result: Err(e), env, out }
}

/// The step `r`, preceded by output `out`.
pub open spec fn after(out: Seq<char>, r: Step) -> Step {
    Step { result: r.result, env: r.env, out: out + r.out }
}

/// Evaluates `e` in `env` with depth budget `fuel`.
pub open spec fn eval_expr(e: Expr, env: Env, fuel: nat) -> Step
    decreases fuel, 0nat, 0nat,
{
    if fuel == 0 {
        failed(EvalError::DepthExceeded, env, seq![])
    } else {
        let f = (fuel - 1) as nat;
        match e {
            Expr::Int(n) => Step { result: Ok(Value::Int(n)), env, out: seq![] },
            Expr::Str(s) => Step { result: Ok(Value::Str(s)), env, out: seq![] },
            Expr::Bool(b) => Step { result: Ok(Value::Bool(b)), env, out: seq![] },
            Expr::Print(x) => {
                let s = eval_expr(*x, env, f);
                match s.result {
                    Ok(v) => match render(v) {
                        Some(t) => Step { result: Ok(Value::Void), env: s.env, out: s.out + t },
                        None => failed(EvalError::UnsupportedPrintValue, s.env, s.out),
                    },
                    Err(_) => s,
                }
            },
            Expr::Binary(op, l, r) => {
                let a = eval_expr(*l, env, f);
                match a.result {
                    Ok(x) => {
                        let b = eval_expr(*r, a.env, f);
                        match b.result {
                            Ok(y) => Step { result: apply_op(op, x, y), env: b.env, out: a.out + b.out },
                            Err(_) => after(a.out, b),
                        }
                    },
                    Err(_) => a,
                }
            },
            Expr::If(c, t, o) => {
                let s = eval_expr(*c, env, f);
                match s.result {
                    Ok(Value::Bool(b)) => after(s.out, eval_expr(if b { *t } else { *o }, s.env, f)),
                    Ok(_) => failed(EvalError::InvalidCondition, s.env, s.out),
                    Err(_) => s,
                }
            },
            Expr::Let(x, v, n) => {
                let s = eval_expr(*v, env, f);
                match s.result {
                    Ok(val) => after(s.out, eval_expr(*n, s.env.insert(x, val), f)),
                    Err(_) => s,
                }
            },
            Expr::Var(x) => if env.contains_key(x) {
                Step { result: Ok(env[x]), env, out: seq![] }
            } else {
                failed(EvalError::UnboundVariable, env, seq![])
            },
            Expr::Function(ps, b) => Step {
                result: Ok(Value::Closure { params: ps, body: *b, env }),
                env,
                out: seq![],
            },
            Expr::Call(c, args) => {
                let s = eval_expr(*c, env, f);
                match s.result {
                    Ok(Value::Closure { params, body, env: captured }) => {
                        let a = eval_args(args, s.env, f);
                        let out = s.out + a.out;
                        match a.result {
                            Ok(vals) => if vals.len() != params.len() {
                                failed(EvalError::ArityMismatch, a.env, out)
                            } else {
                                let r = eval_expr(body, bind_all(captured, params, vals), f);
                                Step { result: r.result, env: a.env, out: out + r.out }
                            },
                            Err(e) => failed(e, a.env, out),
                        }
                    },
                    Ok(_) => failed(EvalError::NotCallable, s.env, s.out),
                    Err(_) => s,
                }
            },
        }
    }
}

/// Evaluates `args` from left to right, each with depth budget `fuel`,
/// stopping at the first failure.
pub open spec fn eval_args(args: Seq<Expr>, env: Env, fuel: nat) -> ArgsStep
    decreases fuel, 1nat, args.len(),
{
    if args.len() == 0 {
        ArgsStep { result: Ok(seq![]), env, out: seq![] }
    } else {
        let p = eval_args(args.drop_last(), env, fuel);
        match p.result {
            Ok(vs) => {
                let r = eval_expr(args.last(), p.env, fuel);
                match r.result {
                    Ok(v) => ArgsStep { result: Ok(vs.push(v)), env: r.env, out: p.out + r.out },
                    Err(e) => ArgsStep { result: Err(e), env: r.env, out: p.out + r.out },
                }
            },
            Err(_) => p,
        }
    }
}

/// Once a prefix of an argument list fails, the whole list fails the same way.
pub proof fn lemma_args_failure_stays(args: Seq<Expr>, k: int, env: Env, fuel: nat)
    requires
        0 <= k <= args.len(),
        eval_args(args.take(k), env, fuel).result is Err,
    ensures
        eval_args(args, env, fuel) == eval_args(args.take(k), env, fuel),
    decreases args.len() - k,
{
    if k == args.len() {
        assert(args.take(k) =~= args);
    } else {
        assert(args.drop_last().take(k) =~= args.take(k));
        lemma_args_failure_stays(args.drop_last(), k, env, fuel);
    }
}

} // verus!

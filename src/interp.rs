//! The evaluator.
use vstd::prelude::*;
use crate::ast::{copy_parameters, names_of, BinaryOp, Call, Expr, File, Term};
use crate::semantics::{
    apply_op, bind_all, eval_args, eval_expr, lemma_args_failure_stays, models, result_model,
    EvalError,
};
use crate::text::append_decimal;
use crate::value::{Scope, Val};

verus! {

/// Applies a binary operator to two evaluated operands.
pub fn apply_binary(op: BinaryOp, x: Val, y: Val) -> (r: Result<Val, EvalError>)
    ensures
        result_model(r) == apply_op(op, x.model(), y.model()),
{
    match op {
        BinaryOp::Add => match (x, y) {
            (Val::Int(a), Val::Int(b)) => match a.checked_add(b) {
                Some(n) => Ok(Val::Int(n)),
                None => Err(EvalError::Overflow),
            },
            (Val::Str(s), Val::Str(t)) => {
                let mut r = s;
                r.append(t.as_str());
                Ok(Val::Str(r))
            },
            (Val::Str(s), Val::Int(b)) => {
                let mut r = s;
                append_decimal(&mut r, b);
                Ok(Val::Str(r))
            },
            (Val::Int(a), Val::Str(t)) => {
                let mut r = String::new();
                append_decimal(&mut r, a);
                r.append(t.as_str());
                Ok(Val::Str(r))
            },
            _ => Err(EvalError::InvalidOperation),
        },
        BinaryOp::Sub => match (x, y) {
            (Val::Int(a), Val::Int(b)) => match a.checked_sub(b) {
                Some(n) => Ok(Val::Int(n)),
                None => Err(EvalError::Overflow),
            },
            _ => Err(EvalError::InvalidOperation),
        },
        BinaryOp::Lt => match (x, y) {
            (Val::Int(a), Val::Int(b)) => Ok(Val::Bool(a < b)),
            _ => Err(EvalError::InvalidOperation),
        },
    }
}

/// Appends the printed form of `v` to `out`; fails on `Void` and closures.
pub fn print_value(v: &Val, out: &mut String) -> (r: Result<(), EvalError>)
    ensures
        match crate::semantics::render(v.model()) {
            Some(t) => r is Ok && final(out)@ == old(out)@ + t,
            None => r == Err::<(), EvalError>(EvalError::UnsupportedPrintValue) && final(out)@
                == old(out)@,
        },
{
    match v {
        Val::Int(n) => {
            append_decimal(out, *n);
            Ok(())
        },
        Val::Str(s) => {
            out.append(s.as_str());
            Ok(())
        },
        Val::Bool(b) => {
            if *b {
                out.append("true");
                proof {
                    reveal_strlit("true");
                    assert(final(out)@ =~= old(out)@ + crate::semantics::true_text());
                }
            } else {
                out.append("false");
                proof {
                    reveal_strlit("false");
                    assert(final(out)@ =~= old(out)@ + crate::semantics::false_text());
                }
            }
            Ok(())
        },
        _ => Err(EvalError::UnsupportedPrintValue),
    }
}

/// Evaluates `term` in `scope` with depth budget `depth`, appending what it
/// prints to `out`. Output printed before a failure stays in `out`.
#[verifier::spinoff_prover]
#[verifier::rlimit(100)]
pub fn eval(term: &Term, scope: &mut Scope, out: &mut String, depth: u64) -> (r: Result<
    Val,
    EvalError,
>)
    ensures
        result_model(r) == eval_expr(term.model(), old(scope).model(), depth as nat).result,
        final(scope).model() == eval_expr(term.model(), old(scope).model(), depth as nat).env,
        final(out)@ == old(out)@ + eval_expr(term.model(), old(scope).model(), depth as nat).out,
    decreases depth, 0nat,
{
    if depth == 0 {
        proof {
            assert(old(out)@ + seq![] =~= old(out)@);
        }
        return Err(EvalError::DepthExceeded);
    }
    let d = depth - 1;
    let ghost env0 = scope.model();
    let ghost out0 = out@;
    match term {
        Term::Int(n) => {
            proof {
                assert(out0 + seq![] =~= out0);
            }
            Ok(Val::Int(n.value))
        },
        Term::Str(s) => {
            proof {
                assert(out0 + seq![] =~= out0);
            }
            Ok(Val::Str(s.value.clone()))
        },
        Term::Bool(b) => {
            proof {
                assert(out0 + seq![] =~= out0);
            }
            Ok(Val::Bool(b.value))
        },
        Term::Print(p) => {
            let v = match eval(&p.value, scope, out, d) {
                Ok(v) => v,
                Err(e) => return Err(e),
            };
            let ghost out1 = out@;
            match print_value(&v, out) {
                Ok(()) => {
                    proof {
                        let t = crate::semantics::render(v.model())->Some_0;
                        assert(out@ == out1 + t);
                        assert(out0 + (out1.subrange(out0.len() as int, out1.len() as int) + t)
                            =~= out@);
                        assert(out1.subrange(out0.len() as int, out1.len() as int) =~= eval_expr(
                            p.value.model(),
                            env0,
                            d as nat,
                        ).out);
                    }
                    Ok(Val::Void)
                },
                Err(e) => Err(e),
            }
        },
        Term::Binary(b) => {
            let x = match eval(&b.lhs, scope, out, d) {
                Ok(v) => v,
                Err(e) => return Err(e),
            };
            let ghost env1 = scope.model();
            let ghost out1 = out@;
            let y = match eval(&b.rhs, scope, out, d) {
                Ok(v) => v,
                Err(e) => {
                    proof {
                        assert(out@ =~= out0 + (eval_expr(b.lhs.model(), env0, d as nat).out
                            + eval_expr(b.rhs.model(), env1, d as nat).out));
                    }
                    return Err(e);
                },
            };
            proof {
                assert(out@ =~= out0 + (eval_expr(b.lhs.model(), env0, d as nat).out + eval_expr(
                    b.rhs.model(),
                    env1,
                    d as nat,
                ).out));
            }
            apply_binary(b.op, x, y)
        },
        Term::If(i) => {
            let c = match eval(&i.condition, scope, out, d) {
                Ok(v) => v,
                Err(e) => return Err(e),
            };
            let ghost env1 = scope.model();
            let ghost out1 = out@;
            match c {
                Val::Bool(true) => {
                    let r = eval(&i.then_branch, scope, out, d);
                    proof {
                        assert(out@ =~= out0 + (eval_expr(i.condition.model(), env0, d as nat).out
                            + eval_expr(i.then_branch.model(), env1, d as nat).out));
                    }
                    r
                },
                Val::Bool(false) => {
                    let r = eval(&i.otherwise, scope, out, d);
                    proof {
                        assert(out@ =~= out0 + (eval_expr(i.condition.model(), env0, d as nat).out
                            + eval_expr(i.otherwise.model(), env1, d as nat).out));
                    }
                    r
                },
                _ => Err(EvalError::InvalidCondition),
            }
        },
        Term::Let(l) => {
            let v = match eval(&l.value, scope, out, d) {
                Ok(v) => v,
                Err(e) => return Err(e),
            };
            let ghost env1 = scope.model();
            let ghost vm = v.model();
            scope.bind(l.name.text.clone(), v);
            let r = eval(&l.next, scope, out, d);
            proof {
                assert(out@ =~= out0 + (eval_expr(l.value.model(), env0, d as nat).out + eval_expr(
                    l.next.model(),
                    env1.insert(l.name.text@, vm),
                    d as nat,
                ).out));
            }
            r
        },
        Term::Var(v) => {
            proof {
                assert(out0 + seq![] =~= out0);
            }
            match scope.lookup(&v.text) {
                Some(x) => Ok(x),
                None => Err(EvalError::UnboundVariable),
            }
        },
        Term::Function(f) => {
            proof {
                assert(out0 + seq![] =~= out0);
            }
            Ok(Val::Closure { body: f.value.copy(), params: copy_parameters(&f.parameters), env: scope.snapshot() })
        },
        Term::Call(c) => {
            let callee = match eval(&c.callee, scope, out, d) {
                Ok(v) => v,
                Err(e) => return Err(e),
            };
            let ghost env1 = scope.model();
            let ghost out1 = out@;
            match callee {
                Val::Closure { body, params, env } => {
                    let args = match eval_arguments(term, scope, out, d) {
                        Ok(a) => a,
                        Err(e) => {
                            proof {
                                assert(out@ =~= out0 + (eval_expr(c.callee.model(), env0, d as nat).out
                                    + eval_args(term.model()->Call_1, env1, d as nat).out));
                            }
                            return Err(e);
                        },
                    };
                    let ghost out2 = out@;
                    proof {
                        assert(out@ =~= out0 + (eval_expr(c.callee.model(), env0, d as nat).out
                            + eval_args(term.model()->Call_1, env1, d as nat).out));
                    }
                    if args.len() != params.len() {
                        return Err(EvalError::ArityMismatch);
                    }
                    let ghost names = names_of(params@);
                    let ghost vals = models(args@);
                    let ghost captured = env.model();
                    let mut inner = env;
                    let mut j: usize = 0;
                    while j < params.len()
                        invariant
                            j <= params.len(),
                            params@.len() == args@.len(),
                            names == names_of(params@),
                            vals == models(args@),
                            inner.model() == bind_all(captured, names.take(j as int), vals.take(j as int)),
                        decreases params.len() - j,
                    {
                        let a = args[j].copy();
                        inner.bind(params[j].text.clone(), a);
                        proof {
                            assert(names.take(j + 1).drop_last() =~= names.take(j as int));
                            assert(vals.take(j + 1).drop_last() =~= vals.take(j as int));
                        }
                        j += 1;
                    }
                    proof {
                        assert(names.take(j as int) =~= names);
                        assert(vals.take(j as int) =~= vals);
                    }
                    let r = eval(&body, &mut inner, out, d);
                    proof {
                        assert(out@ =~= out0 + (out2.subrange(out0.len() as int, out2.len() as int)
                            + eval_expr(body.model(), bind_all(captured, names, vals), d as nat).out));
                    }
                    r
                },
                _ => Err(EvalError::NotCallable),
            }
        },
    }
}

/// A depth budget for whole programs.
pub const DEFAULT_DEPTH: u64 = 2000;

/// Runs `term` from the empty environment with depth budget `depth`: what it
/// printed, and its result.
pub fn run(term: &Term, depth: u64) -> (r: (String, Result<Val, EvalError>))
    ensures
        r.0@ == eval_expr(term.model(), Map::empty(), depth as nat).out,
        result_model(r.1) == eval_expr(term.model(), Map::empty(), depth as nat).result,
{
    let mut scope = Scope::new();
    let mut out = String::new();
    let r = eval(term, &mut scope, &mut out, depth);
    proof {
        assert(out@ =~= eval_expr(term.model(), Map::empty(), depth as nat).out);
    }
    (out, r)
}

/// Runs a program's expression from the empty environment.
pub fn run_file(file: &File, depth: u64) -> (r: (String, Result<Val, EvalError>))
    ensures
        r.0@ == eval_expr(file.expression.model(), Map::empty(), depth as nat).out,
        result_model(r.1) == eval_expr(file.expression.model(), Map::empty(), depth as nat).result,
{
    run(&file.expression, depth)
}

/// Evaluates the arguments of the call `call` from left to right.
fn eval_arguments(call: &Term, scope: &mut Scope, out: &mut String, depth: u64) -> (r: Result<
    Vec<Val>,
    EvalError,
>)
    requires
        call is Call,
    ensures
        match r {
            Ok(vs) => eval_args(call.model()->Call_1, old(scope).model(), depth as nat).result
                == Ok::<Seq<crate::value::Value>, EvalError>(models(vs@)),
            Err(e) => eval_args(call.model()->Call_1, old(scope).model(), depth as nat).result
                == Err::<Seq<crate::value::Value>, EvalError>(e),
        },
        final(scope).model() == eval_args(call.model()->Call_1, old(scope).model(), depth as nat).env,
        final(out)@ == old(out)@ + eval_args(call.model()->Call_1, old(scope).model(), depth as nat).out,
    decreases depth, 1nat,
{
    let c: &Call = match call {
        Term::Call(c) => c,
        _ => {
            return Ok(Vec::new());
        },
    };
    let ghost xs: Seq<Expr> = call.model()->Call_1;
    let ghost env0 = scope.model();
    let ghost out0 = out@;
    let mut vals: Vec<Val> = Vec::new();
    let mut i: usize = 0;
    proof {
        assert(xs.take(0) =~= Seq::<Expr>::empty());
        assert(out0 + seq![] =~= out0);
        assert(models(vals@) =~= Seq::<crate::value::Value>::empty());
    }
    while i < c.arguments.len()
        invariant
            i <= c.arguments.len(),
            xs == call.model()->Call_1,
            *call == Term::Call(*c),
            xs.len() == c.arguments.len(),
            env0 == old(scope).model(),
            out0 == old(out)@,
            eval_args(xs.take(i as int), env0, depth as nat).result
                == Ok::<Seq<crate::value::Value>, EvalError>(models(vals@)),
            eval_args(xs.take(i as int), env0, depth as nat).env == scope.model(),
            out@ == out0 + eval_args(xs.take(i as int), env0, depth as nat).out,
        decreases c.arguments.len() - i,
    {
        assert(xs[i as int] == c.arguments[i as int].model());
        assert(xs.take(i + 1).drop_last() =~= xs.take(i as int));
        let ghost p = eval_args(xs.take(i as int), env0, depth as nat);
        let ghost out1 = out@;
        match eval(&c.arguments[i], scope, out, depth) {
            Ok(v) => {
                proof {
                    assert(out@ =~= out0 + (p.out + eval_expr(xs[i as int], p.env, depth as nat).out));
                    assert(models(vals@.push(v)) =~= models(vals@).push(v.model()));
                }
                vals.push(v);
            },
            Err(e) => {
                proof {
                    assert(xs.take(i + 1).last() == xs[i as int]);
                    assert(out@ =~= out0 + (p.out + eval_expr(xs[i as int], p.env, depth as nat).out));
                    assert(eval_args(xs.take(i + 1), env0, depth as nat).result == Err::<Seq<crate::value::Value>, EvalError>(e));
                    lemma_args_failure_stays(xs, i + 1, env0, depth as nat);
                }
                return Err(e);
            },
        }
        i += 1;
    }
    proof {
        assert(xs.take(i as int) =~= xs);
    }
    Ok(vals)
}

} // verus!

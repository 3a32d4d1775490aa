//! The evaluator: runs an expression against the standard library.
use vstd::prelude::*;

use crate::dval::{
    dbool, dcode_error, derror, dincomplete, dint, dstr, dvals_view, lemma_dvals_view,
    lemma_dvals_view_push, list, DType, Dval, DvalV, Dval_, Error, SymTable,
};
use crate::expr::{node, Expr, Expr_};
use crate::names::{string_vector_clone, string_vector_get, string_vector_items};
use crate::runtime::{
    random_i32, rc_clone, stdlib, stdlib_lookup, Builtin, Caller, Environment, FunctionDesc_,
};
use crate::semantics::{
    args_spec, call_spec, eval_spec, first_param, int_eq_result, int_mod_result,
    int_random_result, int_range_result, int_remainder, int_to_string_result, lemma_args_step,
    lemma_args_step_safe, lemma_map_step, lemma_map_step_safe, lemma_yields_without_drawing, lemma_map_stopped, map_finish,
    map_spec, mod_crashes, range_values, safe, yields, MapResult,
};
use crate::text::i32_text;

verus! {

/// The state of one execution: where the code being run belongs.
pub struct ExecState {
    pub caller: Caller,
}

/// Evaluates `body` in an empty symbol table against the standard library.
///
/// The program must finish without crashing, whatever random numbers it
/// draws: no unbound variable, no lambda without parameters applied by
/// `List::map`, no `Int::mod` by zero, and no endless application of a
/// function to itself. The value is what the evaluation rules give for the
/// random numbers that were drawn.
pub fn run(state: &ExecState, body: Expr) -> (res: Dval)
    requires
        exists|fuel: nat| safe(fuel, *body, Map::empty(), state.caller),
    ensures
        exists|fuel: nat, used: Seq<i32>| #[trigger]
            eval_spec(fuel, *body, Map::empty(), state.caller, used).0 == Some((*res)@),
{
    let environment = Environment { functions: stdlib() };
    let st = SymTable::new();
    let ghost fuel = choose|fuel: nat| safe(fuel, *body, Map::empty(), state.caller);
    let (v, Ghost(used)) = eval(state, &body, &st, &environment, Ghost(fuel));
    proof {
        assert(used + Seq::<i32>::empty() =~= used);
        assert(eval_spec(fuel, *body, st@, state.caller, used + Seq::<i32>::empty()) == (
            Some((*v)@),
            Seq::<i32>::empty(),
        ));
        assert(eval_spec(fuel, *body, Map::empty(), state.caller, used).0 == Some((*v)@));
    }
    v
}

/// Two integer arguments, where that is what `args` is.
fn two_ints(args: &Vec<Dval>) -> (r: Option<(i32, i32)>)
    ensures
        dvals_view(args@).len() == args@.len(),
        match r {
            Some((a, b)) => args@.len() == 2 && dvals_view(args@)[0] == DvalV::VInt(a)
                && dvals_view(args@)[1] == DvalV::VInt(b),
            None => !(args@.len() == 2 && dvals_view(args@)[0] is VInt && dvals_view(
                args@,
            )[1] is VInt),
        },
{
    proof {
        lemma_dvals_view(args@);
    }
    if args.len() == 2 {
        match (&*args[0], &*args[1]) {
            (Dval_::DInt(a), Dval_::DInt(b)) => Some((*a, *b)),
            _ => None,
        }
    } else {
        None
    }
}

/// `Int::range_v0`: the integers from the first argument up to, not
/// including, the second.
#[allow(non_snake_case)]
fn int__range__0(state: &ExecState, name: &FunctionDesc_, args: Vec<Dval>) -> (res: Dval)
    ensures
        (*res)@ == int_range_result(name@, state.caller, dvals_view(args@)),
{
    match two_ints(&args) {
        Some((start, end)) => {
            let mut out: Vec<Dval> = Vec::new();
            let mut i = start;
            while i < end
                invariant
                    start <= i,
                    start < end ==> i <= end,
                    start >= end ==> i == start,
                    dvals_view(out@) =~= Seq::new(
                        (i - start) as nat,
                        |k: int| DvalV::VInt((start + k) as i32),
                    ),
                decreases end - i,
            {
                let v = dint(i);
                proof {
                    lemma_dvals_view_push(out@, v);
                }
                out.push(v);
                i = i + 1;
            }
            assert(dvals_view(out@) =~= range_values(start, end));
            list(out)
        },
        None => derror(&state.caller, Error::IncorrectArguments(name.clone(), args)),
    }
}

/// `Int::toString_v0`: the decimal text of an integer.
#[allow(non_snake_case)]
fn int__toString__0(state: &ExecState, name: &FunctionDesc_, args: Vec<Dval>) -> (res: Dval)
    ensures
        (*res)@ == int_to_string_result(name@, state.caller, dvals_view(args@)),
{
    proof {
        lemma_dvals_view(args@);
    }
    let a = if args.len() == 1 {
        match &*args[0] {
            Dval_::DInt(a) => Some(*a),
            _ => None,
        }
    } else {
        None
    };
    match a {
        Some(a) => {
            let s = i32_text(a);
            dstr(s.as_str())
        },
        None => derror(&state.caller, Error::IncorrectArguments(name.clone(), args)),
    }
}

/// `Int::random_v0`: a random integer.
#[allow(non_snake_case)]
fn int__random__0(state: &ExecState, name: &FunctionDesc_, args: Vec<Dval>) -> (res: (
    Dval,
    Ghost<Seq<i32>>,
))
    ensures
        forall|rest: Seq<i32>| #[trigger]
            int_random_result(name@, state.caller, dvals_view(args@), res.1@ + rest) == (
                (*res.0)@,
                rest,
            ),
{
    proof {
        lemma_dvals_view(args@);
    }
    if args.len() == 0 {
        let x = random_i32();
        proof {
            assert forall|rest: Seq<i32>| #[trigger]
                int_random_result(name@, state.caller, dvals_view(args@), seq![x] + rest) == (
                    DvalV::VInt(x),
                    rest,
                ) by {
                assert((seq![x] + rest).drop_first() =~= rest);
            }
        }
        let ghost u = seq![x];
        (dint(x), Ghost(u))
    } else {
        let r = derror(&state.caller, Error::IncorrectArguments(name.clone(), args));
        proof {
            assert forall|rest: Seq<i32>| #[trigger]
                int_random_result(name@, state.caller, dvals_view(args@), Seq::empty() + rest)
                    == ((*r)@, rest) by {
                assert(Seq::<i32>::empty() + rest =~= rest);
            }
        }
        (r, Ghost(Seq::empty()))
    }
}

/// `Int::eq_v0`: whether two integers are equal.
#[allow(non_snake_case)]
fn int__eq__0(state: &ExecState, name: &FunctionDesc_, args: Vec<Dval>) -> (res: Dval)
    ensures
        (*res)@ == int_eq_result(name@, state.caller, dvals_view(args@)),
{
    match two_ints(&args) {
        Some((a, b)) => dbool(a == b),
        None => derror(&state.caller, Error::IncorrectArguments(name.clone(), args)),
    }
}

/// `Int::mod_v0`: the remainder of dividing the first argument by the second.
#[allow(non_snake_case)]
fn int__mod__0(state: &ExecState, name: &FunctionDesc_, args: Vec<Dval>) -> (res: Dval)
    requires
        int_mod_result(name@, state.caller, dvals_view(args@)).is_some(),
    ensures
        Some((*res)@) == int_mod_result(name@, state.caller, dvals_view(args@)),
{
    match two_ints(&args) {
        Some((a, b)) => {
            assert(!mod_crashes(a, b));
            let r = a % b;
            assert(r == int_remainder(a, b));
            dint(r)
        },
        None => derror(&state.caller, Error::IncorrectArguments(name.clone(), args)),
    }
}

/// `List::map_v0`: applies a lambda to each member of a list, from first to
/// last, and returns the list of results; stops at the first result that is
/// a special value and returns that value.
#[allow(non_snake_case)]
fn list__map__0(
    state: &ExecState,
    name: &FunctionDesc_,
    args: Vec<Dval>,
    env: &Environment,
    Ghost(fuel): Ghost<nat>,
) -> (res: (Dval, Ghost<Seq<i32>>))
    requires
        env.is_stdlib(),
        forall|d: Seq<i32>| #[trigger]
            call_spec(fuel, Builtin::ListMap, name@, state.caller, dvals_view(args@), d).0.is_some(),
    ensures
        forall|rest: Seq<i32>| #[trigger]
            call_spec(fuel, Builtin::ListMap, name@, state.caller, dvals_view(args@), res.1@ + rest)
                == (Some((*res.0)@), rest),
    decreases fuel, 1nat,
{
    let ghost c = state.caller;
    let ghost argsv = dvals_view(args@);
    proof {
        lemma_dvals_view(args@);
    }
    let shaped = args.len() == 2 && match (&*args[0], &*args[1]) {
        (Dval_::DList(_), Dval_::DLambda(_, _, _)) => true,
        _ => false,
    };
    if !shaped {
        let r = derror(&state.caller, Error::IncorrectArguments(name.clone(), args));
        proof {
            assert forall|rest: Seq<i32>| #[trigger]
                call_spec(fuel, Builtin::ListMap, name@, c, argsv, Seq::empty() + rest) == (
                    Some((*r)@),
                    rest,
                ) by {
                assert(Seq::<i32>::empty() + rest =~= rest);
            }
        }
        return (r, Ghost(Seq::empty()));
    }
    match (&*args[0], &*args[1]) {
        (Dval_::DList(members), Dval_::DLambda(closure, vars, body)) => {
            let ghost ms = dvals_view(members@);
            let ghost cl = closure@;
            let ghost ps = string_vector_items(*vars);
            let ghost param = first_param(ps);
            let ghost b = node(body);
            proof {
                lemma_dvals_view(members@);
                assert(argsv[0] == DvalV::VList(ms));
                assert(argsv[1] == DvalV::VLambda(cl, ps, *body));
                assert(call_spec(fuel, Builtin::ListMap, name@, c, argsv, Seq::empty()).0.is_some());
                assert forall|d: Seq<i32>| #[trigger] map_spec(fuel, ms, cl, param, b, c, d).0.is_some() by {
                    assert(call_spec(fuel, Builtin::ListMap, name@, c, argsv, d).0.is_some());
                    assert(call_spec(fuel, Builtin::ListMap, name@, c, argsv, d) == map_finish(
                        map_spec(fuel, ms, cl, param, b, c, d),
                    ));
                }
            }
            let n = members.len();
            let mut results: Vec<Dval> = Vec::new();
            let ghost mut used: Seq<i32> = Seq::empty();
            let mut i: usize = 0;
            assert forall|rest: Seq<i32>| #[trigger]
                map_spec(fuel, ms.take(0), cl, param, b, c, used + rest) == (
                    Some(MapResult::All(dvals_view(results@))),
                    rest,
                ) by {
                assert(ms.take(0) =~= Seq::<DvalV>::empty());
                assert(used + rest =~= rest);
            }
            while i < n
                invariant
                    env.is_stdlib(),
                    n == members@.len(),
                    ms == dvals_view(members@),
                    ms.len() == n,
                    cl == closure@,
                    ps == string_vector_items(*vars),
                    param == first_param(ps),
                    b == node(body),
                    c == state.caller,
                    argsv == dvals_view(args@),
                    argsv.len() == 2,
                    argsv[0] == DvalV::VList(ms),
                    argsv[1] == DvalV::VLambda(cl, ps, *body),
                    n > 0 ==> ps.len() > 0,
                    forall|d: Seq<i32>| #[trigger]
                        map_spec(fuel, ms, cl, param, b, c, d).0.is_some(),
                    i <= n,
                    forall|rest: Seq<i32>| #[trigger]
                        map_spec(fuel, ms.take(i as int), cl, param, b, c, used + rest) == (
                            Some(MapResult::All(dvals_view(results@))),
                            rest,
                        ),
                decreases n - i,
            {
                let var = string_vector_get(vars, 0).clone();
                let member = rc_clone(&members[i]);
                let st = closure.update(var, member);
                proof {
                    lemma_dvals_view(members@);
                    assert(st@ == cl.insert(param, ms[i as int]));
                    assert forall|d: Seq<i32>| #[trigger] eval_spec(fuel, b, st@, c, d).0.is_some() by {
                        lemma_map_step_safe(
                            fuel,
                            ms,
                            cl,
                            param,
                            b,
                            c,
                            used + d,
                            i as int,
                            dvals_view(results@),
                            d,
                        );
                    }
                }
                let (r, Ghost(u)) = eval(state, body, &st, env, Ghost(fuel));
                let ghost rv = (*r)@;
                proof {
                    lemma_map_step(
                        fuel,
                        ms,
                        cl,
                        param,
                        b,
                        c,
                        i as int,
                        dvals_view(results@),
                        used,
                        u,
                        rv,
                    );
                }
                if r.is_special() {
                    proof {
                        assert forall|rest: Seq<i32>| #[trigger]
                            map_spec(fuel, ms, cl, param, b, c, (used + u) + rest) == (
                                Some(MapResult::Stopped(rv)),
                                rest,
                            ) by {
                            assert(map_spec(fuel, ms.take(i + 1), cl, param, b, c, (used + u) + rest)
                                == (Some(MapResult::Stopped(rv)), rest));
                            lemma_map_stopped(
                                fuel,
                                ms,
                                cl,
                                param,
                                b,
                                c,
                                (used + u) + rest,
                                i + 1,
                                n as int,
                                rv,
                                rest,
                            );
                            assert(ms.take(n as int) =~= ms);
                        }
                    }
                    let ghost total = used + u;
                    assert forall|rest: Seq<i32>| #[trigger]
                        call_spec(fuel, Builtin::ListMap, name@, state.caller, dvals_view(args@), total + rest)
                            == (Some((*r)@), rest) by {
                        assert(map_spec(fuel, ms, cl, param, b, c, (used + u) + rest) == (
                            Some(MapResult::Stopped(rv)),
                            rest,
                        ));
                        assert(call_spec(fuel, Builtin::ListMap, name@, c, argsv, (used + u) + rest)
                            == map_finish(map_spec(fuel, ms, cl, param, b, c, (used + u) + rest)));
                    }
                    return (r, Ghost(total));
                }
                proof {
                    lemma_dvals_view_push(results@, r);
                }
                results.push(r);
                proof {
                    used = used + u;
                }
                i += 1;
            }
            assert(ms.take(n as int) =~= ms);
            let out = list(results);
            assert forall|rest: Seq<i32>| #[trigger]
                call_spec(fuel, Builtin::ListMap, name@, c, argsv, used + rest) == (
                    Some((*out)@),
                    rest,
                ) by {
                assert(map_spec(fuel, ms.take(n as int), cl, param, b, c, used + rest) == (
                    Some(MapResult::All(dvals_view(results@))),
                    rest,
                ));
                assert(call_spec(fuel, Builtin::ListMap, name@, c, argsv, used + rest) == map_finish(
                    map_spec(fuel, ms, cl, param, b, c, used + rest),
                ));
            }
            (out, Ghost(used))
        },
        _ => {
            proof {
                assert(false);
            }
            (dint(0), Ghost(Seq::empty()))
        },
    }
}

/// Calls the standard library function `b`, named `name`, with `args`.
fn call_builtin(
    state: &ExecState,
    b: Builtin,
    name: &FunctionDesc_,
    args: Vec<Dval>,
    env: &Environment,
    Ghost(fuel): Ghost<nat>,
) -> (res: (Dval, Ghost<Seq<i32>>))
    requires
        env.is_stdlib(),
        forall|d: Seq<i32>| #[trigger]
            call_spec(fuel, b, name@, state.caller, dvals_view(args@), d).0.is_some(),
    ensures
        forall|rest: Seq<i32>| #[trigger]
            call_spec(fuel, b, name@, state.caller, dvals_view(args@), res.1@ + rest) == (
                Some((*res.0)@),
                rest,
            ),
    decreases fuel, 2nat,
{
    let ghost argsv = dvals_view(args@);
    let ghost c = state.caller;
    match b {
        Builtin::IntRandom => {
            let (r, Ghost(u)) = int__random__0(state, name, args);
            (r, Ghost(u))
        },
        Builtin::ListMap => list__map__0(state, name, args, env, Ghost(fuel)),
        _ => {
            let r = match b {
                Builtin::IntRange => int__range__0(state, name, args),
                Builtin::IntToString => int__toString__0(state, name, args),
                Builtin::IntEq => int__eq__0(state, name, args),
                _ => {
                    assert(call_spec(fuel, b, name@, c, argsv, Seq::empty()).0.is_some());
                    int__mod__0(state, name, args)
                },
            };
            proof {
                assert forall|rest: Seq<i32>| #[trigger]
                    call_spec(fuel, b, name@, c, argsv, Seq::empty() + rest) == (Some((*r)@), rest) by {
                    assert(Seq::<i32>::empty() + rest =~= rest);
                }
            }
            (r, Ghost(Seq::empty()))
        },
    }
}

/// Evaluates `expr` in `symtable` against the functions of `env`; `fuel`
/// bounds the depth of nested evaluations.
fn eval(
    state: &ExecState,
    expr: &Expr,
    symtable: &SymTable,
    env: &Environment,
    Ghost(fuel): Ghost<nat>,
) -> (res: (Dval, Ghost<Seq<i32>>))
    requires
        env.is_stdlib(),
        safe(fuel, **expr, symtable@, state.caller),
    ensures
        yields(fuel, **expr, symtable@, state.caller, res.1@, (*res.0)@),
    decreases fuel, 0nat,
{
    let ghost c = state.caller;
    let ghost st = symtable@;
    assert(eval_spec(fuel, **expr, st, c, Seq::empty()).0.is_some());
    let ghost f = (fuel - 1) as nat;
    match &**expr {
        Expr_::IntLiteral { id: _, val } => {
            let v = dint(*val);
            proof {
                lemma_yields_without_drawing(fuel, node(expr), st, c, (*v)@);
            }
            (v, Ghost(Seq::empty()))
        },
        Expr_::StringLiteral { id: _, val } => {
            let v = dstr(val.as_str());
            proof {
                lemma_yields_without_drawing(fuel, node(expr), st, c, (*v)@);
            }
            (v, Ghost(Seq::empty()))
        },
        Expr_::Blank { id } => {
            let v = dincomplete(&Caller::Code(state.caller.to_tlid(), *id));
            proof {
                lemma_yields_without_drawing(fuel, node(expr), st, c, (*v)@);
            }
            (v, Ghost(Seq::empty()))
        },
        Expr_::Variable { id: _, name } => {
            let found = symtable.get(name);
            let v = found.unwrap();
            proof {
                lemma_yields_without_drawing(fuel, node(expr), st, c, (*v)@);
            }
            (v, Ghost(Seq::empty()))
        },
        Expr_::Lambda { id: _, params, body } => {
            let v = lambda_value(symtable, params, body);
            proof {
                lemma_yields_without_drawing(fuel, node(expr), st, c, (*v)@);
            }
            (v, Ghost(Seq::empty()))
        },
        Expr_::Let { id: _, lhs, rhs, body } => {
            assert forall|d: Seq<i32>| #[trigger] eval_spec(f, **rhs, st, c, d).0.is_some() by {
                assert(eval_spec(fuel, **expr, st, c, d).0.is_some());
            }
            let (r, Ghost(u1)) = eval(state, rhs, symtable, env, Ghost(f));
            let ghost rv = (*r)@;
            let st2 = symtable.update(lhs.clone(), r);
            assert forall|d: Seq<i32>| #[trigger] eval_spec(f, **body, st2@, c, d).0.is_some() by {
                assert(eval_spec(f, **rhs, st, c, u1 + d) == (Some(rv), d));
                assert(eval_spec(fuel, **expr, st, c, u1 + d).0.is_some());
            }
            let (v, Ghost(u2)) = eval(state, body, &st2, env, Ghost(f));
            assert forall|rest: Seq<i32>| #[trigger]
                eval_spec(fuel, **expr, st, c, (u1 + u2) + rest) == (Some((*v)@), rest) by {
                assert((u1 + u2) + rest =~= u1 + (u2 + rest));
                assert(eval_spec(f, **rhs, st, c, u1 + (u2 + rest)) == (Some(rv), u2 + rest));
                assert(eval_spec(f, **body, st2@, c, u2 + rest) == (Some((*v)@), rest));
            }
            (v, Ghost(u1 + u2))
        },
        Expr_::If { id, cond, then_body, else_body } => {
            assert forall|d: Seq<i32>| #[trigger] eval_spec(f, **cond, st, c, d).0.is_some() by {
                assert(eval_spec(fuel, **expr, st, c, d).0.is_some());
            }
            let (r, Ghost(u1)) = eval(state, cond, symtable, env, Ghost(f));
            let ghost rv = (*r)@;
            let truth: Option<bool> = match &*r {
                Dval_::DBool(b) => Some(*b),
                _ => None,
            };
            match truth {
                Some(t) => {
                    let branch = if t {
                        then_body
                    } else {
                        else_body
                    };
                    assert(rv == DvalV::VBool(t));
                    assert forall|d: Seq<i32>| #[trigger]
                        eval_spec(f, **branch, st, c, d).0.is_some() by {
                        assert(eval_spec(f, **cond, st, c, u1 + d) == (Some(rv), d));
                        assert(eval_spec(fuel, **expr, st, c, u1 + d).0.is_some());
                    }
                    let (v, Ghost(u2)) = eval(state, branch, symtable, env, Ghost(f));
                    assert forall|rest: Seq<i32>| #[trigger]
                        eval_spec(fuel, **expr, st, c, (u1 + u2) + rest) == (Some((*v)@), rest) by {
                        assert((u1 + u2) + rest =~= u1 + (u2 + rest));
                        assert(eval_spec(f, **cond, st, c, u1 + (u2 + rest)) == (
                            Some(rv),
                            u2 + rest,
                        ));
                        assert(eval_spec(f, **branch, st, c, u2 + rest) == (Some((*v)@), rest));
                    }
                    (v, Ghost(u1 + u2))
                },
                None => {
                    let v = dcode_error(&state.caller, *id, Error::InvalidType(r, DType::TBool));
                    assert forall|rest: Seq<i32>| #[trigger]
                        eval_spec(fuel, **expr, st, c, u1 + rest) == (Some((*v)@), rest) by {
                        assert(eval_spec(f, **cond, st, c, u1 + rest) == (Some(rv), rest));
                    }
                    (v, Ghost(u1))
                },
            }
        },
        Expr_::BinOp { id, lhs, op, rhs } => {
            match env.get(op) {
                None => {
                    let v = derror(&state.caller, Error::MissingFunction(op.clone()));
                    proof {
                        lemma_yields_without_drawing(fuel, node(expr), st, c, (*v)@);
                    }
                    (v, Ghost(Seq::empty()))
                },
                Some(b) => {
                    assert(stdlib_lookup(op@) == Some(b));
                    assert forall|d: Seq<i32>| #[trigger] eval_spec(f, **lhs, st, c, d).0.is_some() by {
                        assert(eval_spec(fuel, **expr, st, c, d).0.is_some());
                    }
                    let (l, Ghost(u1)) = eval(state, lhs, symtable, env, Ghost(f));
                    let ghost lv = (*l)@;
                    assert forall|d: Seq<i32>| #[trigger] eval_spec(f, **rhs, st, c, d).0.is_some() by {
                        assert(eval_spec(f, **lhs, st, c, u1 + d) == (Some(lv), d));
                        assert(eval_spec(fuel, **expr, st, c, u1 + d).0.is_some());
                    }
                    let (r, Ghost(u2)) = eval(state, rhs, symtable, env, Ghost(f));
                    let ghost rv = (*r)@;
                    let state2 = ExecState { caller: Caller::Code(state.caller.to_tlid(), *id) };
                    let mut args: Vec<Dval> = Vec::new();
                    args.push(l);
                    args.push(r);
                    proof {
                        lemma_dvals_view(args@);
                        assert(dvals_view(args@) =~= seq![lv, rv]);
                    }
                    assert forall|d: Seq<i32>| #[trigger]
                        call_spec(f, b, op@, state2.caller, dvals_view(args@), d).0.is_some() by {
                        assert((u1 + u2) + d =~= u1 + (u2 + d));
                        assert(eval_spec(f, **lhs, st, c, u1 + (u2 + d)) == (Some(lv), u2 + d));
                        assert(eval_spec(f, **rhs, st, c, u2 + d) == (Some(rv), d));
                        assert(eval_spec(fuel, **expr, st, c, u1 + (u2 + d)).0.is_some());
                    }
                    let (v, Ghost(u3)) = call_builtin(&state2, b, op, args, env, Ghost(f));
                    assert forall|rest: Seq<i32>| #[trigger]
                        eval_spec(fuel, **expr, st, c, (u1 + u2 + u3) + rest) == (Some((*v)@), rest) by {
                        assert((u1 + u2 + u3) + rest =~= u1 + (u2 + (u3 + rest)));
                        assert(eval_spec(f, **lhs, st, c, u1 + (u2 + (u3 + rest))) == (
                            Some(lv),
                            u2 + (u3 + rest),
                        ));
                        assert(eval_spec(f, **rhs, st, c, u2 + (u3 + rest)) == (
                            Some(rv),
                            u3 + rest,
                        ));
                        assert(call_spec(f, b, op@, state2.caller, seq![lv, rv], u3 + rest) == (
                            Some((*v)@),
                            rest,
                        ));
                    }
                    (v, Ghost(u1 + u2 + u3))
                },
            }
        },
        Expr_::FnCall { id, name, args } => {
            match env.get(name) {
                None => {
                    let v = derror(&state.caller, Error::MissingFunction(name.clone()));
                    proof {
                        lemma_yields_without_drawing(fuel, node(expr), st, c, (*v)@);
                    }
                    (v, Ghost(Seq::empty()))
                },
                Some(b) => {
                    assert(stdlib_lookup(name@) == Some(b));
                    let ghost es = args@;
                    assert forall|d: Seq<i32>| #[trigger] args_spec(f, es, st, c, d).0.is_some() by {
                        assert(eval_spec(fuel, **expr, st, c, d).0.is_some());
                    }
                    let n = args.len();
                    let mut vals: Vec<Dval> = Vec::new();
                    let ghost mut used: Seq<i32> = Seq::empty();
                    let mut i: usize = 0;
                    assert(es.take(0) =~= Seq::<Expr>::empty());
                    assert forall|rest: Seq<i32>| #[trigger]
                        args_spec(f, es.take(0), st, c, used + rest) == (
                            Some(dvals_view(vals@)),
                            rest,
                        ) by {
                        assert(used + rest =~= rest);
                    }
                    while i < n
                        invariant
                            env.is_stdlib(),
                            fuel > 0,
                            f == fuel - 1,
                            n == es.len(),
                            es == args@,
                            st == symtable@,
                            c == state.caller,
                            i <= n,
                            forall|d: Seq<i32>| #[trigger] args_spec(f, es, st, c, d).0.is_some(),
                            forall|rest: Seq<i32>| #[trigger]
                                args_spec(f, es.take(i as int), st, c, used + rest) == (
                                    Some(dvals_view(vals@)),
                                    rest,
                                ),
                        decreases n - i,
                    {
                        assert forall|d: Seq<i32>| #[trigger]
                            eval_spec(f, *es[i as int], st, c, d).0.is_some() by {
                            lemma_args_step_safe(
                                f,
                                es,
                                st,
                                c,
                                used + d,
                                i as int,
                                dvals_view(vals@),
                                d,
                            );
                        }
                        let (v, Ghost(u)) = eval(state, &args[i], symtable, env, Ghost(f));
                        proof {
                            lemma_args_step(f, es, st, c, i as int, dvals_view(vals@), used, u, (*v)@);
                            lemma_dvals_view_push(vals@, v);
                        }
                        vals.push(v);
                        proof {
                            used = used + u;
                        }
                        i += 1;
                    }
                    assert(es.take(n as int) =~= es);
                    let state2 = ExecState { caller: Caller::Code(state.caller.to_tlid(), *id) };
                    assert forall|d: Seq<i32>| #[trigger]
                        call_spec(f, b, name@, state2.caller, dvals_view(vals@), d).0.is_some() by {
                        assert(args_spec(f, es, st, c, used + d) == (Some(dvals_view(vals@)), d));
                        assert(eval_spec(fuel, **expr, st, c, used + d).0.is_some());
                    }
                    let (v, Ghost(u2)) = call_builtin(&state2, b, name, vals, env, Ghost(f));
                    assert forall|rest: Seq<i32>| #[trigger]
                        eval_spec(fuel, **expr, st, c, (used + u2) + rest) == (Some((*v)@), rest) by {
                        assert((used + u2) + rest =~= used + (u2 + rest));
                        assert(args_spec(f, es.take(n as int), st, c, used + (u2 + rest)) == (
                            Some(dvals_view(vals@)),
                            u2 + rest,
                        ));
                        assert(call_spec(f, b, name@, state2.caller, dvals_view(vals@), u2 + rest) == (
                            Some((*v)@),
                            rest,
                        ));
                        assert(args_spec(f, es, st, c, used + (u2 + rest)) == (
                            Some(dvals_view(vals@)),
                            u2 + rest,
                        ));
                    }
                    (v, Ghost(used + u2))
                },
            }
        },
    }
}

/// A lambda value closing over `symtable`.
fn lambda_value(symtable: &SymTable, params: &im_rc::Vector<String>, body: &Expr) -> (v: Dval)
    ensures
        (*v)@ == DvalV::VLambda(symtable@, string_vector_items(*params), *body),
{
    std::rc::Rc::new(
        Dval_::DLambda(symtable.clone(), string_vector_clone(params), rc_clone(body)),
    )
}

} // verus!

//! What evaluating an expression means, stated over plain values.
//!
//! Evaluation is given a bound on the depth of nested evaluations (`fuel`),
//! since a program can apply a function to itself and never finish, and the
//! sequence of random numbers that `Int::random` draws, in order. It ends
//! with `None` where the program would crash or needs more depth.
use vstd::prelude::*;

use crate::dval::{DType, DvalV, ErrorV, SpecialV};
use crate::expr::{Expr, Expr_};
use crate::names::string_vector_items;
use crate::runtime::{stdlib_lookup, Builtin, Caller, DescV};
use crate::text::int_text;

verus! {

/// The next random number, and the numbers after it. Where none is left the
/// number is 0.
pub open spec fn draw(d: Seq<i32>) -> (i32, Seq<i32>) {
    if d.len() > 0 {
        (d[0], d.drop_first())
    } else {
        (0i32, d)
    }
}

/// The error `e`, produced at `c`.
pub open spec fn error_at(c: Caller, e: ErrorV) -> DvalV {
    DvalV::VSpecial(SpecialV::VError(c, e))
}

/// The error of calling `name` at `c` with arguments it does not take.
pub open spec fn incorrect_arguments(name: DescV, c: Caller, args: Seq<DvalV>) -> DvalV {
    error_at(c, ErrorV::VIncorrectArguments(name, args))
}

/// The integers from `start` up to, not including, `end`, as values.
pub open spec fn range_values(start: i32, end: i32) -> Seq<DvalV> {
    Seq::new(
        if start < end {
            (end - start) as nat
        } else {
            0
        },
        |k: int| DvalV::VInt((start + k) as i32),
    )
}

/// The remainder of `a` divided by `b`, with the sign of `a`, as Rust's `%`
/// computes it.
pub open spec fn int_remainder(a: i32, b: i32) -> i32 {
    (if a >= 0 {
        (a as int) % (b as int)
    } else {
        -((-(a as int)) % (b as int))
    }) as i32
}

/// `Int::mod` on `a` and `b` crashes: division by zero, or the one remainder
/// that overflows.
pub open spec fn mod_crashes(a: i32, b: i32) -> bool {
    b == 0 || (a == i32::MIN && b == -1)
}

/// What `Int::range` returns for the arguments `args`.
pub open spec fn int_range_result(name: DescV, c: Caller, args: Seq<DvalV>) -> DvalV {
    if args.len() == 2 {
        match (args[0], args[1]) {
            (DvalV::VInt(start), DvalV::VInt(end)) => DvalV::VList(range_values(start, end)),
            _ => incorrect_arguments(name, c, args),
        }
    } else {
        incorrect_arguments(name, c, args)
    }
}

/// What `Int::toString` returns for the arguments `args`.
pub open spec fn int_to_string_result(name: DescV, c: Caller, args: Seq<DvalV>) -> DvalV {
    if args.len() == 1 {
        match args[0] {
            DvalV::VInt(a) => DvalV::VStr(int_text(a as int)),
            _ => incorrect_arguments(name, c, args),
        }
    } else {
        incorrect_arguments(name, c, args)
    }
}

/// What `Int::eq` returns for the arguments `args`.
pub open spec fn int_eq_result(name: DescV, c: Caller, args: Seq<DvalV>) -> DvalV {
    if args.len() == 2 {
        match (args[0], args[1]) {
            (DvalV::VInt(a), DvalV::VInt(b)) => DvalV::VBool(a == b),
            _ => incorrect_arguments(name, c, args),
        }
    } else {
        incorrect_arguments(name, c, args)
    }
}

/// What `Int::mod` returns for the arguments `args`; `None` where it crashes.
pub open spec fn int_mod_result(name: DescV, c: Caller, args: Seq<DvalV>) -> Option<DvalV> {
    if args.len() == 2 {
        match (args[0], args[1]) {
            (DvalV::VInt(a), DvalV::VInt(b)) => if mod_crashes(a, b) {
                None
            } else {
                Some(DvalV::VInt(int_remainder(a, b)))
            },
            _ => Some(incorrect_arguments(name, c, args)),
        }
    } else {
        Some(incorrect_arguments(name, c, args))
    }
}

/// What `Int::random` returns for the arguments `args` with the random
/// numbers `d`, and the numbers it leaves: it draws one only when it is called
/// with no argument.
pub open spec fn int_random_result(name: DescV, c: Caller, args: Seq<DvalV>, d: Seq<i32>) -> (
    DvalV,
    Seq<i32>,
) {
    if args.len() == 0 {
        let (x, rest) = draw(d);
        (DvalV::VInt(x), rest)
    } else {
        (incorrect_arguments(name, c, args), d)
    }
}

/// How applying a lambda to the members of a list ended: with all results,
/// or at the first result that was a special value.
pub enum MapResult {
    All(Seq<DvalV>),
    Stopped(DvalV),
}

/// Evaluates `e` in the bindings `st`, for the caller `c`, with `fuel` levels
/// of nesting left and the random numbers `d`. Returns the value, or `None`
/// where the program crashes or needs more depth, and the random numbers not
/// drawn.
pub open spec fn eval_spec(fuel: nat, e: Expr_, st: Map<Seq<char>, DvalV>, c: Caller, d: Seq<i32>) -> (
    Option<DvalV>,
    Seq<i32>,
)
    decreases fuel, 0nat, 0nat,
{
    if fuel == 0 {
        (None, d)
    } else {
        let f = (fuel - 1) as nat;
        match e {
            Expr_::IntLiteral { id: _, val } => (Some(DvalV::VInt(val)), d),
            Expr_::StringLiteral { id: _, val } => (Some(DvalV::VStr(val@)), d),
            Expr_::Blank { id } => (
                Some(DvalV::VSpecial(SpecialV::VIncomplete(Caller::Code(c.tlid(), id)))),
                d,
            ),
            Expr_::Let { id: _, lhs, rhs, body } => {
                let (r, d1) = eval_spec(f, *rhs, st, c, d);
                match r {
                    Some(v) => eval_spec(f, *body, st.insert(lhs@, v), c, d1),
                    None => (None, d1),
                }
            },
            Expr_::Variable { id: _, name } => if st.dom().contains(name@) {
                (Some(st[name@]), d)
            } else {
                (None, d)
            },
            Expr_::Lambda { id: _, params, body } => (
                Some(DvalV::VLambda(st, string_vector_items(params), body)),
                d,
            ),
            Expr_::If { id, cond, then_body, else_body } => {
                let (r, d1) = eval_spec(f, *cond, st, c, d);
                match r {
                    Some(DvalV::VBool(true)) => eval_spec(f, *then_body, st, c, d1),
                    Some(DvalV::VBool(false)) => eval_spec(f, *else_body, st, c, d1),
                    Some(v) => (
                        Some(
                            error_at(
                                Caller::Code(c.tlid(), id),
                                ErrorV::VInvalidType(Box::new(v), DType::TBool),
                            ),
                        ),
                        d1,
                    ),
                    None => (None, d1),
                }
            },
            Expr_::BinOp { id, lhs, op, rhs } => match stdlib_lookup(op@) {
                None => (Some(error_at(c, ErrorV::VMissingFunction(op@))), d),
                Some(b) => {
                    let (l, d1) = eval_spec(f, *lhs, st, c, d);
                    match l {
                        None => (None, d1),
                        Some(lv) => {
                            let (r, d2) = eval_spec(f, *rhs, st, c, d1);
                            match r {
                                None => (None, d2),
                                Some(rv) => call_spec(
                                    f,
                                    b,
                                    op@,
                                    Caller::Code(c.tlid(), id),
                                    seq![lv, rv],
                                    d2,
                                ),
                            }
                        },
                    }
                },
            },
            Expr_::FnCall { id, name, args } => match stdlib_lookup(name@) {
                None => (Some(error_at(c, ErrorV::VMissingFunction(name@))), d),
                Some(b) => {
                    let (a, d1) = args_spec(f, args@, st, c, d);
                    match a {
                        None => (None, d1),
                        Some(vs) => call_spec(f, b, name@, Caller::Code(c.tlid(), id), vs, d1),
                    }
                },
            },
        }
    }
}

/// Evaluates the expressions `args` from first to last.
pub open spec fn args_spec(fuel: nat, args: Seq<Expr>, st: Map<Seq<char>, DvalV>, c: Caller, d: Seq<i32>) -> (
    Option<Seq<DvalV>>,
    Seq<i32>,
)
    decreases fuel, 0nat, args.len(),
{
    if args.len() == 0 {
        (Some(seq![]), d)
    } else {
        let (pre, d1) = args_spec(fuel, args.drop_last(), st, c, d);
        match pre {
            None => (None, d1),
            Some(vs) => {
                let (o, d2) = eval_spec(fuel, *args.last(), st, c, d1);
                match o {
                    None => (None, d2),
                    Some(v) => (Some(vs.push(v)), d2),
                }
            },
        }
    }
}

/// Calls the standard library function `b`, named `name`, at `c`, with the
/// arguments `args`.
pub open spec fn call_spec(fuel: nat, b: Builtin, name: DescV, c: Caller, args: Seq<DvalV>, d: Seq<i32>) -> (
    Option<DvalV>,
    Seq<i32>,
)
    decreases fuel, 2nat, 0nat,
{
    match b {
        Builtin::IntRandom => {
            let (v, d1) = int_random_result(name, c, args, d);
            (Some(v), d1)
        },
        Builtin::IntRange => (Some(int_range_result(name, c, args)), d),
        Builtin::IntToString => (Some(int_to_string_result(name, c, args)), d),
        Builtin::IntEq => (Some(int_eq_result(name, c, args)), d),
        Builtin::IntMod => (int_mod_result(name, c, args), d),
        Builtin::ListMap => if args.len() == 2 {
            match (args[0], args[1]) {
                (DvalV::VList(members), DvalV::VLambda(closure, params, body)) => {
                    if members.len() > 0 && params.len() == 0 {
                        (None, d)
                    } else {
                        map_finish(map_spec(fuel, members, closure, first_param(params), *body, c, d))
                    }
                },
                _ => (Some(incorrect_arguments(name, c, args)), d),
            }
        } else {
            (Some(incorrect_arguments(name, c, args)), d)
        },
    }
}

/// The name that `List::map` binds each member to: the lambda's first parameter.
pub open spec fn first_param(params: Seq<Seq<char>>) -> Seq<char> {
    if params.len() > 0 {
        params[0]
    } else {
        Seq::<char>::empty()
    }
}

/// What `List::map` returns once the lambda has been applied: the list of
/// results, or the special value it stopped at.
pub open spec fn map_finish(r: (Option<MapResult>, Seq<i32>)) -> (Option<DvalV>, Seq<i32>) {
    match r.0 {
        None => (None, r.1),
        Some(MapResult::All(vs)) => (Some(DvalV::VList(vs)), r.1),
        Some(MapResult::Stopped(s)) => (Some(s), r.1),
    }
}

/// Evaluates `body` for each of `members`, from first to last, with `param`
/// bound to the member in the bindings `closure`; stops at the first result
/// that is a special value.
pub open spec fn map_spec(
    fuel: nat,
    members: Seq<DvalV>,
    closure: Map<Seq<char>, DvalV>,
    param: Seq<char>,
    body: Expr_,
    c: Caller,
    d: Seq<i32>,
) -> (Option<MapResult>, Seq<i32>)
    decreases fuel, 1nat, members.len(),
{
    if members.len() == 0 {
        (Some(MapResult::All(seq![])), d)
    } else {
        let (pre, d1) = map_spec(fuel, members.drop_last(), closure, param, body, c, d);
        match pre {
            None => (None, d1),
            Some(MapResult::Stopped(s)) => (Some(MapResult::Stopped(s)), d1),
            Some(MapResult::All(vs)) => {
                let (o, d2) = eval_spec(fuel, body, closure.insert(param, members.last()), c, d1);
                match o {
                    None => (None, d2),
                    Some(v) => if v is VSpecial {
                        (Some(MapResult::Stopped(v)), d2)
                    } else {
                        (Some(MapResult::All(vs.push(v))), d2)
                    },
                }
            },
        }
    }
}

/// Evaluating `e` never crashes and never needs more than `fuel` levels of
/// nesting, whatever random numbers are drawn.
pub open spec fn safe(fuel: nat, e: Expr_, st: Map<Seq<char>, DvalV>, c: Caller) -> bool {
    forall|d: Seq<i32>| #[trigger] eval_spec(fuel, e, st, c, d).0.is_some()
}

/// Evaluating `e` draws exactly the random numbers `used` and yields `v`.
pub open spec fn yields(
    fuel: nat,
    e: Expr_,
    st: Map<Seq<char>, DvalV>,
    c: Caller,
    used: Seq<i32>,
    v: DvalV,
) -> bool {
    forall|rest: Seq<i32>| #[trigger] eval_spec(fuel, e, st, c, used + rest) == (Some(v), rest)
}

/// An evaluation that gives `v` and leaves every supply of random numbers as
/// it was yields `v` drawing nothing.
pub proof fn lemma_yields_without_drawing(
    fuel: nat,
    e: Expr_,
    st: Map<Seq<char>, DvalV>,
    c: Caller,
    v: DvalV,
)
    requires
        forall|d: Seq<i32>| #[trigger] eval_spec(fuel, e, st, c, d) == (Some(v), d),
    ensures
        yields(fuel, e, st, c, Seq::empty(), v),
{
    assert forall|rest: Seq<i32>| #[trigger]
        eval_spec(fuel, e, st, c, Seq::empty() + rest) == (Some(v), rest) by {
        assert(Seq::<i32>::empty() + rest =~= rest);
        assert(eval_spec(fuel, e, st, c, rest) == (Some(v), rest));
    }
}

/// Where evaluating a list of expressions does not fail, evaluating any
/// first part of it does not fail either.
pub proof fn lemma_args_prefix(fuel: nat, args: Seq<Expr>, st: Map<Seq<char>, DvalV>, c: Caller, d: Seq<i32>)
    requires
        args_spec(fuel, args, st, c, d).0.is_some(),
    ensures
        forall|k: int|
            0 <= k <= args.len() ==> (#[trigger] args_spec(fuel, args.take(k), st, c, d)).0.is_some(),
    decreases args.len(),
{
    assert(args.take(args.len() as int) =~= args);
    if args.len() > 0 {
        lemma_args_prefix(fuel, args.drop_last(), st, c, d);
        assert forall|k: int| 0 <= k <= args.len() implies (#[trigger] args_spec(
            fuel,
            args.take(k),
            st,
            c,
            d,
        )).0.is_some() by {
            if k < args.len() {
                assert(args.drop_last().take(k) =~= args.take(k));
            }
        }
    }
}

/// Where applying a lambda to a list does not fail, applying it to any first
/// part of the list does not fail either.
pub proof fn lemma_map_prefix(
    fuel: nat,
    members: Seq<DvalV>,
    closure: Map<Seq<char>, DvalV>,
    param: Seq<char>,
    body: Expr_,
    c: Caller,
    d: Seq<i32>,
)
    requires
        map_spec(fuel, members, closure, param, body, c, d).0.is_some(),
    ensures
        forall|k: int|
            0 <= k <= members.len() ==> (#[trigger] map_spec(
                fuel,
                members.take(k),
                closure,
                param,
                body,
                c,
                d,
            )).0.is_some(),
    decreases members.len(),
{
    assert(members.take(members.len() as int) =~= members);
    if members.len() > 0 {
        lemma_map_prefix(fuel, members.drop_last(), closure, param, body, c, d);
        assert forall|k: int| 0 <= k <= members.len() implies (#[trigger] map_spec(
            fuel,
            members.take(k),
            closure,
            param,
            body,
            c,
            d,
        )).0.is_some() by {
            if k < members.len() {
                assert(members.drop_last().take(k) =~= members.take(k));
            }
        }
    }
}

/// Once applying a lambda to the first members of a list has stopped at a
/// special value, applying it to more members ends the same way.
pub proof fn lemma_map_stopped(
    fuel: nat,
    members: Seq<DvalV>,
    closure: Map<Seq<char>, DvalV>,
    param: Seq<char>,
    body: Expr_,
    c: Caller,
    d: Seq<i32>,
    k: int,
    j: int,
    s: DvalV,
    rest: Seq<i32>,
)
    requires
        0 <= k <= j <= members.len(),
        map_spec(fuel, members.take(k), closure, param, body, c, d) == (
            Some(MapResult::Stopped(s)),
            rest,
        ),
    ensures
        map_spec(fuel, members.take(j), closure, param, body, c, d) == (
            Some(MapResult::Stopped(s)),
            rest,
        ),
    decreases j - k,
{
    if j > k {
        lemma_map_stopped(fuel, members, closure, param, body, c, d, k, j - 1, s, rest);
        assert(members.take(j).drop_last() =~= members.take(j - 1));
    }
}

/// Where evaluating a list of expressions does not fail and its first `i`
/// expressions yielded `vs` leaving `d`, evaluating the next one from `d` does
/// not fail.
pub proof fn lemma_args_step_safe(
    fuel: nat,
    args: Seq<Expr>,
    st: Map<Seq<char>, DvalV>,
    c: Caller,
    d0: Seq<i32>,
    i: int,
    vs: Seq<DvalV>,
    d: Seq<i32>,
)
    requires
        args_spec(fuel, args, st, c, d0).0.is_some(),
        0 <= i < args.len(),
        args_spec(fuel, args.take(i), st, c, d0) == (Some(vs), d),
    ensures
        eval_spec(fuel, *args[i], st, c, d).0.is_some(),
{
    lemma_args_prefix(fuel, args, st, c, d0);
    assert(args.take(i + 1).drop_last() =~= args.take(i));
    assert(args_spec(fuel, args.take(i + 1), st, c, d0).0.is_some());
}

/// Evaluating one more expression of a list extends the values by its value.
pub proof fn lemma_args_step(
    fuel: nat,
    args: Seq<Expr>,
    st: Map<Seq<char>, DvalV>,
    c: Caller,
    i: int,
    vs: Seq<DvalV>,
    used: Seq<i32>,
    u: Seq<i32>,
    v: DvalV,
)
    requires
        0 <= i < args.len(),
        forall|rest: Seq<i32>| #[trigger]
            args_spec(fuel, args.take(i), st, c, used + rest) == (Some(vs), rest),
        yields(fuel, *args[i], st, c, u, v),
    ensures
        forall|rest: Seq<i32>| #[trigger]
            args_spec(fuel, args.take(i + 1), st, c, (used + u) + rest) == (Some(vs.push(v)), rest),
{
    assert forall|rest: Seq<i32>| #[trigger]
        args_spec(fuel, args.take(i + 1), st, c, (used + u) + rest) == (Some(vs.push(v)), rest) by {
        assert((used + u) + rest =~= used + (u + rest));
        assert(args.take(i + 1).drop_last() =~= args.take(i));
        assert(args_spec(fuel, args.take(i), st, c, used + (u + rest)) == (Some(vs), u + rest));
        assert(eval_spec(fuel, *args[i], st, c, u + rest) == (Some(v), rest));
    }
}

/// Where applying a lambda to a list does not fail and applying it to the
/// first `i` members gave `vs` leaving `d`, evaluating the body for the next
/// member from `d` does not fail.
pub proof fn lemma_map_step_safe(
    fuel: nat,
    members: Seq<DvalV>,
    closure: Map<Seq<char>, DvalV>,
    param: Seq<char>,
    body: Expr_,
    c: Caller,
    d0: Seq<i32>,
    i: int,
    vs: Seq<DvalV>,
    d: Seq<i32>,
)
    requires
        map_spec(fuel, members, closure, param, body, c, d0).0.is_some(),
        0 <= i < members.len(),
        map_spec(fuel, members.take(i), closure, param, body, c, d0) == (
            Some(MapResult::All(vs)),
            d,
        ),
    ensures
        eval_spec(fuel, body, closure.insert(param, members[i]), c, d).0.is_some(),
{
    lemma_map_prefix(fuel, members, closure, param, body, c, d0);
    assert(members.take(i + 1).drop_last() =~= members.take(i));
    assert(map_spec(fuel, members.take(i + 1), closure, param, body, c, d0).0.is_some());
}

/// Evaluating the body for one more member extends the results, or stops at
/// a special value.
pub proof fn lemma_map_step(
    fuel: nat,
    members: Seq<DvalV>,
    closure: Map<Seq<char>, DvalV>,
    param: Seq<char>,
    body: Expr_,
    c: Caller,
    i: int,
    vs: Seq<DvalV>,
    used: Seq<i32>,
    u: Seq<i32>,
    v: DvalV,
)
    requires
        0 <= i < members.len(),
        forall|rest: Seq<i32>| #[trigger]
            map_spec(fuel, members.take(i), closure, param, body, c, used + rest) == (
                Some(MapResult::All(vs)),
                rest,
            ),
        yields(fuel, body, closure.insert(param, members[i]), c, u, v),
    ensures
        forall|rest: Seq<i32>| #[trigger]
            map_spec(fuel, members.take(i + 1), closure, param, body, c, (used + u) + rest) == (
                Some(
                    if v is VSpecial {
                        MapResult::Stopped(v)
                    } else {
                        MapResult::All(vs.push(v))
                    },
                ),
                rest,
            ),
{
    assert forall|rest: Seq<i32>| #[trigger]
        map_spec(fuel, members.take(i + 1), closure, param, body, c, (used + u) + rest) == (
            Some(
                if v is VSpecial {
                    MapResult::Stopped(v)
                } else {
                    MapResult::All(vs.push(v))
                },
            ),
            rest,
        ) by {
        assert((used + u) + rest =~= used + (u + rest));
        assert(members.take(i + 1).drop_last() =~= members.take(i));
        assert(map_spec(fuel, members.take(i), closure, param, body, c, used + (u + rest)) == (
            Some(MapResult::All(vs)),
            u + rest,
        ));
        assert(eval_spec(fuel, body, closure.insert(param, members[i]), c, u + rest) == (
            Some(v),
            rest,
        ));
    }
}

} // verus!

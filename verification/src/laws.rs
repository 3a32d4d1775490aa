//! Properties of evaluation that hold across inputs.
use vstd::prelude::*;

use crate::dval::{DType, DvalV, ErrorV};
use crate::expr::{node, Expr, Expr_};
use crate::runtime::{stdlib_lookup, Builtin, Caller, DescV, FunctionDesc_, ID};
use crate::semantics::{
    args_spec, call_spec, draw, error_at, eval_spec, first_param, int_remainder, map_finish,
    map_spec, mod_crashes, MapResult,
};
use crate::text::{digit_char, int_text, nat_text};

verus! {

/// More fuel never changes an evaluation that finished: where evaluating `e`
/// with `fuel` levels of nesting gives a value, any larger bound gives the
/// same value and leaves the same random numbers.
pub proof fn law_more_fuel_same_result(
    fuel: nat,
    more: nat,
    e: Expr_,
    st: Map<Seq<char>, DvalV>,
    c: Caller,
    d: Seq<i32>,
)
    requires
        eval_spec(fuel, e, st, c, d).0.is_some(),
    ensures
        eval_spec(fuel + more, e, st, c, d) == eval_spec(fuel, e, st, c, d),
    decreases fuel, 0nat, 0nat,
{
    let f = (fuel - 1) as nat;
    assert((fuel + more - 1) as nat == f + more);
    match e {
        Expr_::Let { id: _, lhs, rhs, body } => {
            law_more_fuel_same_result(f, more, node(&rhs), st, c, d);
            let (r, d1) = eval_spec(f, node(&rhs), st, c, d);
            if let Some(v) = r {
                law_more_fuel_same_result(f, more, node(&body), st.insert(lhs@, v), c, d1);
            }
        },
        Expr_::If { id: _, cond, then_body, else_body } => {
            law_more_fuel_same_result(f, more, node(&cond), st, c, d);
            let (r, d1) = eval_spec(f, node(&cond), st, c, d);
            match r {
                Some(DvalV::VBool(true)) => {
                    law_more_fuel_same_result(f, more, node(&then_body), st, c, d1);
                },
                Some(DvalV::VBool(false)) => {
                    law_more_fuel_same_result(f, more, node(&else_body), st, c, d1);
                },
                _ => {},
            }
        },
        Expr_::BinOp { id, lhs, op, rhs } => {
            if let Some(b) = stdlib_lookup(op@) {
                law_more_fuel_same_result(f, more, node(&lhs), st, c, d);
                let (l, d1) = eval_spec(f, node(&lhs), st, c, d);
                if let Some(lv) = l {
                    law_more_fuel_same_result(f, more, node(&rhs), st, c, d1);
                    let (r, d2) = eval_spec(f, node(&rhs), st, c, d1);
                    if let Some(rv) = r {
                        lemma_call_more_fuel(
                            f,
                            more,
                            b,
                            op@,
                            Caller::Code(c.tlid(), id),
                            seq![lv, rv],
                            d2,
                        );
                    }
                }
            }
        },
        Expr_::FnCall { id, name, args } => {
            if let Some(b) = stdlib_lookup(name@) {
                lemma_args_more_fuel(f, more, args@, st, c, d);
                let (a, d1) = args_spec(f, args@, st, c, d);
                if let Some(vs) = a {
                    lemma_call_more_fuel(f, more, b, name@, Caller::Code(c.tlid(), id), vs, d1);
                }
            }
        },
        _ => {},
    }
}

proof fn lemma_args_more_fuel(
    fuel: nat,
    more: nat,
    args: Seq<Expr>,
    st: Map<Seq<char>, DvalV>,
    c: Caller,
    d: Seq<i32>,
)
    requires
        args_spec(fuel, args, st, c, d).0.is_some(),
    ensures
        args_spec(fuel + more, args, st, c, d) == args_spec(fuel, args, st, c, d),
    decreases fuel, 0nat, args.len(),
{
    if args.len() > 0 {
        lemma_args_more_fuel(fuel, more, args.drop_last(), st, c, d);
        let (pre, d1) = args_spec(fuel, args.drop_last(), st, c, d);
        if pre.is_some() {
            law_more_fuel_same_result(fuel, more, node(&args.last()), st, c, d1);
        }
    }
}

proof fn lemma_call_more_fuel(
    fuel: nat,
    more: nat,
    b: Builtin,
    name: DescV,
    c: Caller,
    args: Seq<DvalV>,
    d: Seq<i32>,
)
    requires
        call_spec(fuel, b, name, c, args, d).0.is_some(),
    ensures
        call_spec(fuel + more, b, name, c, args, d) == call_spec(fuel, b, name, c, args, d),
    decreases fuel, 2nat, 0nat,
{
    if b == Builtin::ListMap && args.len() == 2 {
        match (args[0], args[1]) {
            (DvalV::VList(members), DvalV::VLambda(closure, params, body)) => {
                if !(members.len() > 0 && params.len() == 0) {
                    lemma_map_more_fuel(fuel, more, members, closure, first_param(params), node(&body), c, d);
                }
            },
            _ => {},
        }
    }
}

proof fn lemma_map_more_fuel(
    fuel: nat,
    more: nat,
    members: Seq<DvalV>,
    closure: Map<Seq<char>, DvalV>,
    param: Seq<char>,
    body: Expr_,
    c: Caller,
    d: Seq<i32>,
)
    requires
        map_spec(fuel, members, closure, param, body, c, d).0.is_some(),
    ensures
        map_spec(fuel + more, members, closure, param, body, c, d) == map_spec(
            fuel,
            members,
            closure,
            param,
            body,
            c,
            d,
        ),
    decreases fuel, 1nat, members.len(),
{
    if members.len() > 0 {
        lemma_map_more_fuel(fuel, more, members.drop_last(), closure, param, body, c, d);
        let (pre, d1) = map_spec(fuel, members.drop_last(), closure, param, body, c, d);
        if let Some(MapResult::All(vs)) = pre {
            law_more_fuel_same_result(fuel, more, body, closure.insert(param, members.last()), c, d1);
        }
    }
}

/// Evaluation does not depend on the bound on nesting: two bounds under which
/// an evaluation finishes give the same value, with the same random numbers.
pub proof fn law_fuel_irrelevant(
    fuel1: nat,
    fuel2: nat,
    e: Expr_,
    st: Map<Seq<char>, DvalV>,
    c: Caller,
    d: Seq<i32>,
)
    requires
        eval_spec(fuel1, e, st, c, d).0.is_some(),
        eval_spec(fuel2, e, st, c, d).0.is_some(),
    ensures
        eval_spec(fuel1, e, st, c, d) == eval_spec(fuel2, e, st, c, d),
{
    if fuel1 <= fuel2 {
        law_more_fuel_same_result(fuel1, (fuel2 - fuel1) as nat, e, st, c, d);
    } else {
        law_more_fuel_same_result(fuel2, (fuel1 - fuel2) as nat, e, st, c, d);
    }
}

/// `List::map` keeps the length: where applying the lambda to every member
/// gave ordinary values, there is one result for each member.
pub proof fn law_map_keeps_length(
    fuel: nat,
    members: Seq<DvalV>,
    closure: Map<Seq<char>, DvalV>,
    param: Seq<char>,
    body: Expr_,
    c: Caller,
    d: Seq<i32>,
    results: Seq<DvalV>,
)
    requires
        map_spec(fuel, members, closure, param, body, c, d).0 == Some(MapResult::All(results)),
    ensures
        results.len() == members.len(),
        forall|i: int| 0 <= i < results.len() ==> !(#[trigger] results[i] is VSpecial),
    decreases members.len(),
{
    if members.len() > 0 {
        let (pre, d1) = map_spec(fuel, members.drop_last(), closure, param, body, c, d);
        if let Some(MapResult::All(vs)) = pre {
            law_map_keeps_length(fuel, members.drop_last(), closure, param, body, c, d, vs);
            assert forall|i: int| 0 <= i < results.len() implies !(#[trigger] results[i] is VSpecial) by {
                if i < vs.len() {
                    assert(results[i] == vs[i]);
                }
            }
        }
    }
}

proof fn lemma_nat_text_shape(n: nat)
    ensures
        nat_text(n).len() >= 1,
        n >= 10 ==> nat_text(n).len() >= 2,
        nat_text(n)[0] != '-',
    decreases n,
{
    if n >= 10 {
        lemma_nat_text_shape(n / 10);
    }
}

proof fn lemma_nat_text_injective(n: nat, m: nat)
    requires
        nat_text(n) == nat_text(m),
    ensures
        n == m,
    decreases n,
{
    lemma_nat_text_shape(n);
    lemma_nat_text_shape(m);
    if n >= 10 && m >= 10 {
        assert(nat_text(n).drop_last() =~= nat_text(n / 10));
        assert(nat_text(m).drop_last() =~= nat_text(m / 10));
        lemma_nat_text_injective(n / 10, m / 10);
        assert(nat_text(n)[nat_text(n).len() - 1] == digit_char(n % 10));
        assert(nat_text(m)[nat_text(m).len() - 1] == digit_char(m % 10));
        assert(n % 10 == m % 10);
    } else if n < 10 && m < 10 {
        assert(nat_text(n)[0] == digit_char(n));
    }
}

/// `Int::toString` tells integers apart: two integers with the same decimal
/// text are the same integer.
pub proof fn law_int_text_injective(a: int, b: int)
    requires
        int_text(a) == int_text(b),
    ensures
        a == b,
{
    lemma_nat_text_shape((-a) as nat);
    lemma_nat_text_shape((-b) as nat);
    lemma_nat_text_shape(a as nat);
    lemma_nat_text_shape(b as nat);
    if a < 0 && b < 0 {
        assert(int_text(a).drop_first() =~= nat_text((-a) as nat));
        assert(int_text(b).drop_first() =~= nat_text((-b) as nat));
        lemma_nat_text_injective((-a) as nat, (-b) as nat);
    } else if a >= 0 && b >= 0 {
        lemma_nat_text_injective(a as nat, b as nat);
    } else {
        assert(int_text(a)[0] != int_text(b)[0]);
    }
}

/// `Int::mod` computes a remainder: where it does not crash, `a` is a multiple
/// of `b` plus the result, the result is smaller than `b` in magnitude, and it
/// is zero or has the sign of `a`.
pub proof fn law_int_mod_is_remainder(a: i32, b: i32)
    requires
        !mod_crashes(a, b),
    ensures
        exists|q: int| a == #[trigger] (q * b) + int_remainder(a, b),
        -(b as int) < int_remainder(a, b) < b || b < int_remainder(a, b) < -(b as int),
        int_remainder(a, b) == 0 || ((int_remainder(a, b) > 0) == (a > 0)),
{
    let x: int = if a >= 0 {
        a as int
    } else {
        -(a as int)
    };
    let r: int = x % (b as int);
    let q: int = x / (b as int);
    assert(x == q * (b as int) + r && 0 <= r && (r < b || r < -(b as int)) && (x == 0 ==> r == 0))
        by (nonlinear_arith)
        requires
            b != 0,
            x >= 0,
            r == x % (b as int),
            q == x / (b as int),
    ;
    if a >= 0 {
        assert(int_remainder(a, b) == r);
        assert(a == q * b + int_remainder(a, b));
    } else {
        assert(int_remainder(a, b) == -r);
        assert((-q) * b == -(q * b)) by (nonlinear_arith);
        assert(a == (-q) * b + int_remainder(a, b));
    }
}

/// `rest` is what is left of `d` after some numbers were taken from its front.
pub open spec fn is_suffix(rest: Seq<i32>, d: Seq<i32>) -> bool {
    rest.len() <= d.len() && rest == d.skip(d.len() - rest.len())
}

proof fn lemma_suffix_trans(a: Seq<i32>, b: Seq<i32>, d: Seq<i32>)
    requires
        is_suffix(a, b),
        is_suffix(b, d),
    ensures
        is_suffix(a, d),
{
    assert(a =~= d.skip(d.len() - a.len()));
}

proof fn lemma_suffix_same_len(a: Seq<i32>, d: Seq<i32>)
    requires
        is_suffix(a, d),
        a.len() == d.len(),
    ensures
        a == d,
{
    assert(d.skip(0) =~= d);
}

/// Evaluation only takes random numbers from the front of the supply.
pub proof fn lemma_eval_takes_front(fuel: nat, e: Expr_, st: Map<Seq<char>, DvalV>, c: Caller, d: Seq<i32>)
    ensures
        is_suffix(eval_spec(fuel, e, st, c, d).1, d),
    decreases fuel, 0nat, 0nat,
{
    assert(d.skip(0) =~= d);
    if fuel > 0 {
        let f = (fuel - 1) as nat;
        match e {
            Expr_::Let { id: _, lhs, rhs, body } => {
                lemma_eval_takes_front(f, node(&rhs), st, c, d);
                let (r, d1) = eval_spec(f, node(&rhs), st, c, d);
                if let Some(v) = r {
                    lemma_eval_takes_front(f, node(&body), st.insert(lhs@, v), c, d1);
                    lemma_suffix_trans(eval_spec(f, node(&body), st.insert(lhs@, v), c, d1).1, d1, d);
                }
            },
            Expr_::If { id: _, cond, then_body, else_body } => {
                lemma_eval_takes_front(f, node(&cond), st, c, d);
                let (r, d1) = eval_spec(f, node(&cond), st, c, d);
                match r {
                    Some(DvalV::VBool(true)) => {
                        lemma_eval_takes_front(f, node(&then_body), st, c, d1);
                        lemma_suffix_trans(eval_spec(f, node(&then_body), st, c, d1).1, d1, d);
                    },
                    Some(DvalV::VBool(false)) => {
                        lemma_eval_takes_front(f, node(&else_body), st, c, d1);
                        lemma_suffix_trans(eval_spec(f, node(&else_body), st, c, d1).1, d1, d);
                    },
                    _ => {},
                }
            },
            Expr_::BinOp { id, lhs, op, rhs } => {
                if let Some(b) = stdlib_lookup(op@) {
                    lemma_eval_takes_front(f, node(&lhs), st, c, d);
                    let (l, d1) = eval_spec(f, node(&lhs), st, c, d);
                    if let Some(lv) = l {
                        lemma_eval_takes_front(f, node(&rhs), st, c, d1);
                        let (r, d2) = eval_spec(f, node(&rhs), st, c, d1);
                        lemma_suffix_trans(d2, d1, d);
                        if let Some(rv) = r {
                            let cc = Caller::Code(c.tlid(), id);
                            lemma_call_takes_front(f, b, op@, cc, seq![lv, rv], d2);
                            lemma_suffix_trans(call_spec(f, b, op@, cc, seq![lv, rv], d2).1, d2, d);
                        }
                    }
                }
            },
            Expr_::FnCall { id, name, args } => {
                if let Some(b) = stdlib_lookup(name@) {
                    lemma_args_takes_front(f, args@, st, c, d);
                    let (a, d1) = args_spec(f, args@, st, c, d);
                    if let Some(vs) = a {
                        let cc = Caller::Code(c.tlid(), id);
                        lemma_call_takes_front(f, b, name@, cc, vs, d1);
                        lemma_suffix_trans(call_spec(f, b, name@, cc, vs, d1).1, d1, d);
                    }
                }
            },
            _ => {},
        }
    }
}

proof fn lemma_args_takes_front(fuel: nat, args: Seq<Expr>, st: Map<Seq<char>, DvalV>, c: Caller, d: Seq<i32>)
    ensures
        is_suffix(args_spec(fuel, args, st, c, d).1, d),
    decreases fuel, 0nat, args.len(),
{
    assert(d.skip(0) =~= d);
    if args.len() > 0 {
        lemma_args_takes_front(fuel, args.drop_last(), st, c, d);
        let (pre, d1) = args_spec(fuel, args.drop_last(), st, c, d);
        if pre.is_some() {
            lemma_eval_takes_front(fuel, node(&args.last()), st, c, d1);
            lemma_suffix_trans(eval_spec(fuel, node(&args.last()), st, c, d1).1, d1, d);
        }
    }
}

proof fn lemma_call_takes_front(fuel: nat, b: Builtin, name: DescV, c: Caller, args: Seq<DvalV>, d: Seq<i32>)
    ensures
        is_suffix(call_spec(fuel, b, name, c, args, d).1, d),
    decreases fuel, 2nat, 0nat,
{
    assert(d.skip(0) =~= d);
    if d.len() > 0 {
        assert(d.drop_first() =~= d.skip(1));
    }
    if b == Builtin::ListMap && args.len() == 2 {
        match (args[0], args[1]) {
            (DvalV::VList(members), DvalV::VLambda(closure, params, body)) => {
                if !(members.len() > 0 && params.len() == 0) {
                    lemma_map_takes_front(fuel, members, closure, first_param(params), node(&body), c, d);
                }
            },
            _ => {},
        }
    }
}

proof fn lemma_map_takes_front(
    fuel: nat,
    members: Seq<DvalV>,
    closure: Map<Seq<char>, DvalV>,
    param: Seq<char>,
    body: Expr_,
    c: Caller,
    d: Seq<i32>,
)
    ensures
        is_suffix(map_spec(fuel, members, closure, param, body, c, d).1, d),
    decreases fuel, 1nat, members.len(),
{
    assert(d.skip(0) =~= d);
    if members.len() > 0 {
        lemma_map_takes_front(fuel, members.drop_last(), closure, param, body, c, d);
        let (pre, d1) = map_spec(fuel, members.drop_last(), closure, param, body, c, d);
        if let Some(MapResult::All(vs)) = pre {
            let st2 = closure.insert(param, members.last());
            lemma_eval_takes_front(fuel, body, st2, c, d1);
            lemma_suffix_trans(eval_spec(fuel, body, st2, c, d1).1, d1, d);
        }
    }
}

/// A program that draws no random number gives the same outcome whatever
/// random numbers are available: where evaluating `e` with the numbers `d1`
/// (there being at least one) leaves all of them, evaluating it with any other
/// numbers `d2` ends the same way and leaves all of those.
pub proof fn law_no_draw_same_outcome(
    fuel: nat,
    e: Expr_,
    st: Map<Seq<char>, DvalV>,
    c: Caller,
    d1: Seq<i32>,
    d2: Seq<i32>,
)
    requires
        d1.len() > 0,
        eval_spec(fuel, e, st, c, d1).1 == d1,
    ensures
        eval_spec(fuel, e, st, c, d2) == (eval_spec(fuel, e, st, c, d1).0, d2),
    decreases fuel, 0nat, 0nat,
{
    if fuel > 0 {
        let f = (fuel - 1) as nat;
        match e {
            Expr_::Let { id: _, lhs, rhs, body } => {
                lemma_eval_takes_front(f, node(&rhs), st, c, d1);
                let (r, m1) = eval_spec(f, node(&rhs), st, c, d1);
                if let Some(v) = r {
                    lemma_eval_takes_front(f, node(&body), st.insert(lhs@, v), c, m1);
                }
                lemma_suffix_same_len(m1, d1);
                law_no_draw_same_outcome(f, node(&rhs), st, c, d1, d2);
                if let Some(v) = r {
                    law_no_draw_same_outcome(f, node(&body), st.insert(lhs@, v), c, d1, d2);
                }
            },
            Expr_::If { id: _, cond, then_body, else_body } => {
                lemma_eval_takes_front(f, node(&cond), st, c, d1);
                let (r, m1) = eval_spec(f, node(&cond), st, c, d1);
                match r {
                    Some(DvalV::VBool(true)) => {
                        lemma_eval_takes_front(f, node(&then_body), st, c, m1);
                    },
                    Some(DvalV::VBool(false)) => {
                        lemma_eval_takes_front(f, node(&else_body), st, c, m1);
                    },
                    _ => {},
                }
                lemma_suffix_same_len(m1, d1);
                law_no_draw_same_outcome(f, node(&cond), st, c, d1, d2);
                match r {
                    Some(DvalV::VBool(true)) => {
                        law_no_draw_same_outcome(f, node(&then_body), st, c, d1, d2);
                    },
                    Some(DvalV::VBool(false)) => {
                        law_no_draw_same_outcome(f, node(&else_body), st, c, d1, d2);
                    },
                    _ => {},
                }
            },
            Expr_::BinOp { id, lhs, op, rhs } => {
                if let Some(b) = stdlib_lookup(op@) {
                    let cc = Caller::Code(c.tlid(), id);
                    lemma_eval_takes_front(f, node(&lhs), st, c, d1);
                    let (l, m1) = eval_spec(f, node(&lhs), st, c, d1);
                    if let Some(lv) = l {
                        lemma_eval_takes_front(f, node(&rhs), st, c, m1);
                        let (r, m2) = eval_spec(f, node(&rhs), st, c, m1);
                        if let Some(rv) = r {
                            lemma_call_takes_front(f, b, op@, cc, seq![lv, rv], m2);
                            lemma_suffix_trans(call_spec(f, b, op@, cc, seq![lv, rv], m2).1, m2, m1);
                        }
                        lemma_suffix_trans(eval_spec(f, node(&rhs), st, c, m1).1, m1, d1);
                        lemma_suffix_same_len(m2, d1);
                        lemma_suffix_same_len(m1, d1);
                        law_no_draw_same_outcome(f, node(&rhs), st, c, d1, d2);
                        if let Some(rv) = r {
                            law_call_no_draw_same_outcome(f, b, op@, cc, seq![lv, rv], d1, d2);
                        }
                    }
                    lemma_suffix_same_len(m1, d1);
                    law_no_draw_same_outcome(f, node(&lhs), st, c, d1, d2);
                }
            },
            Expr_::FnCall { id, name, args } => {
                if let Some(b) = stdlib_lookup(name@) {
                    let cc = Caller::Code(c.tlid(), id);
                    lemma_args_takes_front(f, args@, st, c, d1);
                    let (a, m1) = args_spec(f, args@, st, c, d1);
                    if let Some(vs) = a {
                        lemma_call_takes_front(f, b, name@, cc, vs, m1);
                    }
                    lemma_suffix_same_len(m1, d1);
                    lemma_args_no_draw_same_outcome(f, args@, st, c, d1, d2);
                    if let Some(vs) = a {
                        law_call_no_draw_same_outcome(f, b, name@, cc, vs, d1, d2);
                    }
                }
            },
            _ => {},
        }
    }
}

proof fn lemma_args_no_draw_same_outcome(
    fuel: nat,
    args: Seq<Expr>,
    st: Map<Seq<char>, DvalV>,
    c: Caller,
    d1: Seq<i32>,
    d2: Seq<i32>,
)
    requires
        d1.len() > 0,
        args_spec(fuel, args, st, c, d1).1 == d1,
    ensures
        args_spec(fuel, args, st, c, d2) == (args_spec(fuel, args, st, c, d1).0, d2),
    decreases fuel, 0nat, args.len(),
{
    if args.len() > 0 {
        lemma_args_takes_front(fuel, args.drop_last(), st, c, d1);
        let (pre, m1) = args_spec(fuel, args.drop_last(), st, c, d1);
        if pre.is_some() {
            lemma_eval_takes_front(fuel, node(&args.last()), st, c, m1);
        }
        lemma_suffix_same_len(m1, d1);
        lemma_args_no_draw_same_outcome(fuel, args.drop_last(), st, c, d1, d2);
        if pre.is_some() {
            law_no_draw_same_outcome(fuel, node(&args.last()), st, c, d1, d2);
        }
    }
}

/// A standard library call that draws no random number, with at least one
/// available, has the same outcome whatever random numbers are available.
pub proof fn law_call_no_draw_same_outcome(
    fuel: nat,
    b: Builtin,
    name: DescV,
    c: Caller,
    args: Seq<DvalV>,
    d1: Seq<i32>,
    d2: Seq<i32>,
)
    requires
        d1.len() > 0,
        call_spec(fuel, b, name, c, args, d1).1 == d1,
    ensures
        call_spec(fuel, b, name, c, args, d2) == (call_spec(fuel, b, name, c, args, d1).0, d2),
    decreases fuel, 2nat, 0nat,
{
    if b == Builtin::IntRandom && args.len() == 0 {
        assert(draw(d1).1.len() < d1.len());
    }
    if b == Builtin::ListMap && args.len() == 2 {
        match (args[0], args[1]) {
            (DvalV::VList(members), DvalV::VLambda(closure, params, body)) => {
                if !(members.len() > 0 && params.len() == 0) {
                    lemma_map_no_draw_same_outcome(
                        fuel,
                        members,
                        closure,
                        first_param(params),
                        node(&body),
                        c,
                        d1,
                        d2,
                    );
                }
            },
            _ => {},
        }
    }
}

proof fn lemma_map_no_draw_same_outcome(
    fuel: nat,
    members: Seq<DvalV>,
    closure: Map<Seq<char>, DvalV>,
    param: Seq<char>,
    body: Expr_,
    c: Caller,
    d1: Seq<i32>,
    d2: Seq<i32>,
)
    requires
        d1.len() > 0,
        map_spec(fuel, members, closure, param, body, c, d1).1 == d1,
    ensures
        map_spec(fuel, members, closure, param, body, c, d2) == (
            map_spec(fuel, members, closure, param, body, c, d1).0,
            d2,
        ),
    decreases fuel, 1nat, members.len(),
{
    if members.len() > 0 {
        lemma_map_takes_front(fuel, members.drop_last(), closure, param, body, c, d1);
        let (pre, m1) = map_spec(fuel, members.drop_last(), closure, param, body, c, d1);
        let st2 = closure.insert(param, members.last());
        if let Some(MapResult::All(vs)) = pre {
            lemma_eval_takes_front(fuel, body, st2, c, m1);
        }
        lemma_suffix_same_len(m1, d1);
        lemma_map_no_draw_same_outcome(fuel, members.drop_last(), closure, param, body, c, d1, d2);
        if let Some(MapResult::All(vs)) = pre {
            law_no_draw_same_outcome(fuel, body, st2, c, d1, d2);
        }
    }
}

/// `let lhs = rhs in body`: `rhs` is evaluated in the bindings `st`, then
/// `body` with `lhs` bound to its value (hiding any earlier binding of `lhs`)
/// and every other name bound as in `st`.
pub proof fn law_let_rule(
    fuel: nat,
    id: ID,
    lhs: String,
    rhs: Expr,
    body: Expr,
    st: Map<Seq<char>, DvalV>,
    c: Caller,
    d: Seq<i32>,
)
    ensures
        eval_spec(fuel + 1, Expr_::Let { id, lhs, rhs, body }, st, c, d) == match eval_spec(
            fuel,
            *rhs,
            st,
            c,
            d,
        ) {
            (Some(v), d1) => eval_spec(fuel, *body, st.insert(lhs@, v), c, d1),
            (None, d1) => (None, d1),
        },
{
}

/// `if` with a boolean condition evaluates the branch it selects and only that
/// branch, after the condition.
pub proof fn law_if_selects_branch(
    fuel: nat,
    id: ID,
    cond: Expr,
    then_body: Expr,
    else_body: Expr,
    st: Map<Seq<char>, DvalV>,
    c: Caller,
    d: Seq<i32>,
    k: bool,
    d1: Seq<i32>,
)
    requires
        eval_spec(fuel, *cond, st, c, d) == (Some(DvalV::VBool(k)), d1),
    ensures
        eval_spec(fuel + 1, Expr_::If { id, cond, then_body, else_body }, st, c, d) == eval_spec(
            fuel,
            if k {
                *then_body
            } else {
                *else_body
            },
            st,
            c,
            d1,
        ),
{
}

/// `if` on a condition whose value is not a boolean (an error included)
/// evaluates neither branch and gives an invalid-type error at the `if`'s own
/// expression, holding the condition's value.
pub proof fn law_if_needs_a_boolean(
    fuel: nat,
    id: ID,
    cond: Expr,
    then_body: Expr,
    else_body: Expr,
    st: Map<Seq<char>, DvalV>,
    c: Caller,
    d: Seq<i32>,
    v: DvalV,
    d1: Seq<i32>,
)
    requires
        eval_spec(fuel, *cond, st, c, d) == (Some(v), d1),
        !(v is VBool),
    ensures
        eval_spec(fuel + 1, Expr_::If { id, cond, then_body, else_body }, st, c, d) == (
            Some(
                error_at(
                    Caller::Code(c.tlid(), id),
                    ErrorV::VInvalidType(Box::new(v), DType::TBool),
                ),
            ),
            d1,
        ),
{
}

/// An operator that names a function evaluates its left operand, then its
/// right one, and calls the function once with the two values in that order,
/// at the operator's own expression.
pub proof fn law_operator_calls_in_order(
    fuel: nat,
    id: ID,
    lhs: Expr,
    op: FunctionDesc_,
    rhs: Expr,
    st: Map<Seq<char>, DvalV>,
    c: Caller,
    d: Seq<i32>,
    b: Builtin,
    l: DvalV,
    d1: Seq<i32>,
    r: DvalV,
    d2: Seq<i32>,
)
    requires
        stdlib_lookup(op@) == Some(b),
        eval_spec(fuel, *lhs, st, c, d) == (Some(l), d1),
        eval_spec(fuel, *rhs, st, c, d1) == (Some(r), d2),
    ensures
        eval_spec(fuel + 1, Expr_::BinOp { id, lhs, op, rhs }, st, c, d) == call_spec(
            fuel,
            b,
            op@,
            Caller::Code(c.tlid(), id),
            seq![l, r],
            d2,
        ),
{
}

/// A call of a named function evaluates its arguments from first to last and
/// calls the function once with their values, at the call's own expression.
pub proof fn law_call_evaluates_arguments_first(
    fuel: nat,
    id: ID,
    name: FunctionDesc_,
    args: Vec<Expr>,
    st: Map<Seq<char>, DvalV>,
    c: Caller,
    d: Seq<i32>,
    b: Builtin,
)
    requires
        stdlib_lookup(name@) == Some(b),
    ensures
        eval_spec(fuel + 1, Expr_::FnCall { id, name, args }, st, c, d) == match args_spec(
            fuel,
            args@,
            st,
            c,
            d,
        ) {
            (Some(vs), d1) => call_spec(fuel, b, name@, Caller::Code(c.tlid(), id), vs, d1),
            (None, d1) => (None, d1),
        },
{
}

/// The arguments of a call are evaluated in order, one value for each: the
/// value of argument `i` is what it evaluates to after the ones before it.
pub proof fn law_arguments_in_order(
    fuel: nat,
    args: Seq<Expr>,
    st: Map<Seq<char>, DvalV>,
    c: Caller,
    d: Seq<i32>,
    vs: Seq<DvalV>,
)
    requires
        args_spec(fuel, args, st, c, d).0 == Some(vs),
    ensures
        vs.len() == args.len(),
        forall|i: int|
            0 <= i < args.len() ==> (#[trigger] args_spec(fuel, args.take(i), st, c, d)).0 == Some(
                vs.take(i),
            ) && eval_spec(fuel, *args[i], st, c, args_spec(fuel, args.take(i), st, c, d).1).0
                == Some(vs[i]),
    decreases args.len(),
{
    if args.len() > 0 {
        let (pre, d1) = args_spec(fuel, args.drop_last(), st, c, d);
        let pvs = pre.unwrap();
        law_arguments_in_order(fuel, args.drop_last(), st, c, d, pvs);
        assert(vs =~= pvs.push(vs.last()));
        assert forall|i: int| 0 <= i < args.len() implies (#[trigger] args_spec(
            fuel,
            args.take(i),
            st,
            c,
            d,
        )).0 == Some(vs.take(i)) && eval_spec(
            fuel,
            *args[i],
            st,
            c,
            args_spec(fuel, args.take(i), st, c, d).1,
        ).0 == Some(vs[i]) by {
            if i < args.len() - 1 {
                assert(args.drop_last().take(i) =~= args.take(i));
                assert(pvs.take(i) =~= vs.take(i));
                assert(args_spec(fuel, args.drop_last().take(i), st, c, d).0 == Some(pvs.take(i)));
            } else {
                assert(args.take(i) =~= args.drop_last());
                assert(vs.take(i) =~= pvs);
            }
        }
    }
}

/// A call of a name that the standard library does not have, as a function or
/// as an operator, evaluates none of its arguments, draws no random number and
/// gives a missing-function error where it stands.
pub proof fn law_missing_function(
    fuel: nat,
    e: Expr_,
    st: Map<Seq<char>, DvalV>,
    c: Caller,
    d: Seq<i32>,
)
    requires
        match e {
            Expr_::FnCall { name, .. } => stdlib_lookup(name@) is None,
            Expr_::BinOp { op, .. } => stdlib_lookup(op@) is None,
            _ => false,
        },
    ensures
        eval_spec(fuel + 1, e, st, c, d) == (
            Some(
                error_at(
                    c,
                    ErrorV::VMissingFunction(
                        match e {
                            Expr_::FnCall { name, .. } => name@,
                            Expr_::BinOp { op, .. } => op@,
                            _ => arbitrary(),
                        },
                    ),
                ),
            ),
            d,
        ),
{
}

/// A variable that the bindings do not hold makes evaluation crash; `run`
/// starts from no bindings at all, so a program with a free variable is one
/// it does not accept.
pub proof fn law_unbound_variable_crashes(
    fuel: nat,
    id: ID,
    name: String,
    st: Map<Seq<char>, DvalV>,
    c: Caller,
    d: Seq<i32>,
)
    requires
        !st.dom().contains(name@),
    ensures
        eval_spec(fuel, Expr_::Variable { id, name }, st, c, d).0 is None,
{
}

/// Every standard library function but `Int::random` and `List::map` is a
/// function of its arguments alone: it draws no random number and does not
/// depend on the bound on nesting.
pub proof fn law_builtins_are_functions_of_their_arguments(
    fuel1: nat,
    fuel2: nat,
    b: Builtin,
    name: DescV,
    c: Caller,
    args: Seq<DvalV>,
    d1: Seq<i32>,
    d2: Seq<i32>,
)
    requires
        b != Builtin::IntRandom,
        b != Builtin::ListMap,
    ensures
        call_spec(fuel1, b, name, c, args, d1) == (call_spec(fuel2, b, name, c, args, d2).0, d1),
{
}

/// `List::map` applied to a list and a lambda with parameters binds each
/// member to the lambda's first parameter inside the bindings the lambda
/// closed over.
pub proof fn law_map_binds_first_parameter(
    fuel: nat,
    name: DescV,
    c: Caller,
    members: Seq<DvalV>,
    closure: Map<Seq<char>, DvalV>,
    params: Seq<Seq<char>>,
    body: Expr,
    d: Seq<i32>,
)
    requires
        params.len() > 0,
    ensures
        call_spec(
            fuel,
            Builtin::ListMap,
            name,
            c,
            seq![DvalV::VList(members), DvalV::VLambda(closure, params, body)],
            d,
        ) == map_finish(map_spec(fuel, members, closure, params[0], *body, c, d)),
{
}

/// Where no result is a special value, `List::map` gives one result for each
/// member, in order: the result for member `i` is the body's value with the
/// parameter bound to that member, after the members before it.
pub proof fn law_map_results_in_order(
    fuel: nat,
    members: Seq<DvalV>,
    closure: Map<Seq<char>, DvalV>,
    param: Seq<char>,
    body: Expr_,
    c: Caller,
    d: Seq<i32>,
    results: Seq<DvalV>,
)
    requires
        map_spec(fuel, members, closure, param, body, c, d).0 == Some(MapResult::All(results)),
    ensures
        results.len() == members.len(),
        forall|i: int|
            0 <= i < members.len() ==> (#[trigger] map_spec(
                fuel,
                members.take(i),
                closure,
                param,
                body,
                c,
                d,
            )).0 == Some(MapResult::All(results.take(i))) && eval_spec(
                fuel,
                body,
                closure.insert(param, members[i]),
                c,
                map_spec(fuel, members.take(i), closure, param, body, c, d).1,
            ).0 == Some(results[i]),
    decreases members.len(),
{
    if members.len() > 0 {
        let (pre, d1) = map_spec(fuel, members.drop_last(), closure, param, body, c, d);
        if let Some(MapResult::All(pvs)) = pre {
            law_map_results_in_order(fuel, members.drop_last(), closure, param, body, c, d, pvs);
            assert(results =~= pvs.push(results.last()));
            assert forall|i: int| 0 <= i < members.len() implies (#[trigger] map_spec(
                fuel,
                members.take(i),
                closure,
                param,
                body,
                c,
                d,
            )).0 == Some(MapResult::All(results.take(i))) && eval_spec(
                fuel,
                body,
                closure.insert(param, members[i]),
                c,
                map_spec(fuel, members.take(i), closure, param, body, c, d).1,
            ).0 == Some(results[i]) by {
                if i < members.len() - 1 {
                    assert(members.drop_last().take(i) =~= members.take(i));
                    assert(pvs.take(i) =~= results.take(i));
                    assert(map_spec(fuel, members.drop_last().take(i), closure, param, body, c, d).0
                        == Some(MapResult::All(pvs.take(i))));
                } else {
                    assert(members.take(i) =~= members.drop_last());
                    assert(results.take(i) =~= pvs);
                }
            }
        }
    }
}

/// Applying a lambda to some members went on past all of them.
pub open spec fn went_on(r: Option<MapResult>) -> bool {
    r matches Some(MapResult::All(_))
}

/// Where `List::map` stops at a special value, that value is the body's value
/// for the first member whose result is special, it is returned as it is, and
/// the members after it are never evaluated: the outcome is that of the
/// members up to it.
pub proof fn law_map_stops_at_first_special(
    fuel: nat,
    members: Seq<DvalV>,
    closure: Map<Seq<char>, DvalV>,
    param: Seq<char>,
    body: Expr_,
    c: Caller,
    d: Seq<i32>,
    s: DvalV,
)
    requires
        map_spec(fuel, members, closure, param, body, c, d).0 == Some(MapResult::Stopped(s)),
    ensures
        s is VSpecial,
        exists|j: int|
            0 <= j < members.len() && went_on(#[trigger] map_spec(
                fuel,
                members.take(j),
                closure,
                param,
                body,
                c,
                d,
            ).0) && eval_spec(
                fuel,
                body,
                closure.insert(param, members[j]),
                c,
                map_spec(fuel, members.take(j), closure, param, body, c, d).1,
            ).0 == Some(s) && map_spec(fuel, members, closure, param, body, c, d) == map_spec(
                fuel,
                members.take(j + 1),
                closure,
                param,
                body,
                c,
                d,
            ),
    decreases members.len(),
{
    let (pre, d1) = map_spec(fuel, members.drop_last(), closure, param, body, c, d);
    let n = members.len() as int;
    match pre {
        Some(MapResult::Stopped(s2)) => {
            law_map_stops_at_first_special(fuel, members.drop_last(), closure, param, body, c, d, s2);
            let j = choose|j: int|
                0 <= j < members.drop_last().len() && went_on(#[trigger] map_spec(
                    fuel,
                    members.drop_last().take(j),
                    closure,
                    param,
                    body,
                    c,
                    d,
                ).0) && eval_spec(
                    fuel,
                    body,
                    closure.insert(param, members.drop_last()[j]),
                    c,
                    map_spec(fuel, members.drop_last().take(j), closure, param, body, c, d).1,
                ).0 == Some(s2) && map_spec(fuel, members.drop_last(), closure, param, body, c, d)
                    == map_spec(fuel, members.drop_last().take(j + 1), closure, param, body, c, d);
            assert(members.drop_last().take(j) =~= members.take(j));
            assert(members.drop_last().take(j + 1) =~= members.take(j + 1));
        },
        Some(MapResult::All(vs)) => {
            assert(members.take(n - 1) =~= members.drop_last());
            assert(members.take(n) =~= members);
            assert(map_spec(fuel, members.take(n - 1), closure, param, body, c, d).0 == Some(
                MapResult::All(vs),
            ));
        },
        None => {},
    }
}

/// `List::map` with the lambda that returns its parameter gives back the list,
/// where no member is a special value.
pub proof fn law_map_identity(
    fuel: nat,
    members: Seq<DvalV>,
    closure: Map<Seq<char>, DvalV>,
    id: ID,
    param: String,
    c: Caller,
    d: Seq<i32>,
)
    requires
        fuel > 0,
        forall|i: int| 0 <= i < members.len() ==> !(#[trigger] members[i] is VSpecial),
    ensures
        map_spec(fuel, members, closure, param@, Expr_::Variable { id, name: param }, c, d) == (
            Some(MapResult::All(members)),
            d,
        ),
    decreases members.len(),
{
    if members.len() > 0 {
        law_map_identity(fuel, members.drop_last(), closure, id, param, c, d);
        let st2 = closure.insert(param@, members.last());
        assert(st2.dom().contains(param@) && st2[param@] == members.last());
        assert(!(members[members.len() - 1] is VSpecial));
        assert(eval_spec(fuel, Expr_::Variable { id, name: param }, st2, c, d) == (
            Some(members.last()),
            d,
        ));
        assert(members.drop_last().push(members.last()) =~= members);
    } else {
        assert(members =~= Seq::<DvalV>::empty());
    }
}

} // verus!

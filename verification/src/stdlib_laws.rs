//! What the standard library functions return and which names reach them,
//! stated over integers, lists and names directly.
use vstd::prelude::*;

use crate::dval::{pattern_for, DvalV, ErrorV, SpecialV};
use crate::expr::{Expr, Expr_};
use crate::names::string_vector_items;
use crate::runtime::{
    desc_text, lookup_entries, stdlib_lookup, Builtin, Caller, DescV, FunctionDesc_, StdlibFunction,
    ID, TLID,
};
use crate::laws::law_int_mod_is_remainder;
use crate::semantics::{call_spec, eval_spec, int_remainder, map_spec, MapResult};
use crate::text::{digit_char, int_text, nat_text};

verus! {

/// `Int::eq` on two integers is true when they are equal and false when they
/// differ; it draws no random number.
pub proof fn law_int_eq_compares(fuel: nat, name: DescV, c: Caller, a: i32, b: i32, d: Seq<i32>)
    ensures
        a == b ==> call_spec(fuel, Builtin::IntEq, name, c, seq![DvalV::VInt(a), DvalV::VInt(b)], d)
            == (Some(DvalV::VBool(true)), d),
        a != b ==> call_spec(fuel, Builtin::IntEq, name, c, seq![DvalV::VInt(a), DvalV::VInt(b)], d)
            == (Some(DvalV::VBool(false)), d),
{
}

/// `Int::range` on `start` and `end` gives the list of the `end - start`
/// integers `start, start + 1, ..., end - 1` (the empty list where `end` is not
/// above `start`); it draws no random number.
pub proof fn law_int_range_counts_up(
    fuel: nat,
    name: DescV,
    c: Caller,
    start: i32,
    end: i32,
    d: Seq<i32>,
)
    ensures
        call_spec(fuel, Builtin::IntRange, name, c, seq![DvalV::VInt(start), DvalV::VInt(end)], d).1
            == d,
        call_spec(fuel, Builtin::IntRange, name, c, seq![DvalV::VInt(start), DvalV::VInt(end)], d).0
            matches Some(DvalV::VList(vs)) && vs.len() == (if start < end {
            end - start
        } else {
            0
        }) && forall|k: int| 0 <= k < vs.len() ==> #[trigger] vs[k] == DvalV::VInt((start + k) as i32),
{
}

/// `Int::random` with no argument returns the first random number of the
/// supply and leaves the others.
pub proof fn law_int_random_returns_drawn(
    fuel: nat,
    name: DescV,
    c: Caller,
    x: i32,
    rest: Seq<i32>,
)
    ensures
        call_spec(fuel, Builtin::IntRandom, name, c, seq![], seq![x] + rest) == (
            Some(DvalV::VInt(x)),
            rest,
        ),
{
    assert((seq![x] + rest).drop_first() =~= rest);
}

/// Literals, blanks, bound variables and lambdas evaluate in one step and draw
/// no random number: a string literal to the string it holds (the empty one
/// too), an integer literal to its integer, a blank to an incomplete value
/// produced at the blank, a bound variable to its binding, and a lambda to a
/// closure over the current bindings.
pub proof fn law_leaves_evaluate_to_themselves(
    fuel: nat,
    id: ID,
    text: String,
    n: i32,
    var: String,
    params: im_rc::Vector<String>,
    body: Expr,
    st: Map<Seq<char>, DvalV>,
    c: Caller,
    d: Seq<i32>,
)
    ensures
        eval_spec(fuel + 1, Expr_::StringLiteral { id, val: text }, st, c, d) == (
            Some(DvalV::VStr(text@)),
            d,
        ),
        eval_spec(fuel + 1, Expr_::IntLiteral { id, val: n }, st, c, d) == (Some(DvalV::VInt(n)), d),
        eval_spec(fuel + 1, Expr_::Blank { id }, st, c, d) == (
            Some(DvalV::VSpecial(SpecialV::VIncomplete(Caller::Code(c.tlid(), id)))),
            d,
        ),
        st.dom().contains(var@) ==> eval_spec(fuel + 1, Expr_::Variable { id, name: var }, st, c, d)
            == (Some(st[var@]), d),
        eval_spec(fuel + 1, Expr_::Lambda { id, params, body }, st, c, d) == (
            Some(DvalV::VLambda(st, string_vector_items(params), body)),
            d,
        ),
{
}

/// The standard library has exactly six names, all owned by `dark`, in the
/// package `stdlib`, at version 0: `Int::random`, `Int::range`,
/// `Int::toString`, `Int::eq`, `Int::mod` and `List::map`. Any other name,
/// whatever its module and function name, resolves to nothing.
pub proof fn law_stdlib_names(key: DescV)
    ensures
        stdlib_lookup(key) is Some ==> key.0 == "dark"@ && key.1 == "stdlib"@ && key.4 == 0,
        (stdlib_lookup(key) == Some(Builtin::IntRandom)) <==> key == ("dark"@, "stdlib"@, "Int"@, "random"@, 0u32),
        (stdlib_lookup(key) == Some(Builtin::IntRange)) <==> key == ("dark"@, "stdlib"@, "Int"@, "range"@, 0u32),
        (stdlib_lookup(key) == Some(Builtin::IntToString)) <==> key == ("dark"@, "stdlib"@, "Int"@, "toString"@, 0u32),
        (stdlib_lookup(key) == Some(Builtin::IntEq)) <==> key == ("dark"@, "stdlib"@, "Int"@, "eq"@, 0u32),
        (stdlib_lookup(key) == Some(Builtin::IntMod)) <==> key == ("dark"@, "stdlib"@, "Int"@, "mod"@, 0u32),
        (stdlib_lookup(key) == Some(Builtin::ListMap)) <==> key == ("dark"@, "stdlib"@, "List"@, "map"@, 0u32),
{
    reveal_strlit("dark");
    reveal_strlit("stdlib");
    reveal_strlit("Int");
    reveal_strlit("List");
    reveal_strlit("random");
    reveal_strlit("range");
    reveal_strlit("map");
    reveal_strlit("toString");
    reveal_strlit("eq");
    reveal_strlit("mod");
    assert("Int"@.len() == 3 && "List"@.len() == 4);
    assert("random"@.len() == 6 && "range"@.len() == 5 && "map"@.len() == 3);
    assert("toString"@.len() == 8 && "eq"@.len() == 2 && "mod"@.len() == 3);
}

/// A table resolves a name only through an entry with exactly that name
/// (owner, package, module, function name and version all equal): to the
/// function of the first such entry, and to nothing where no entry has it.
pub proof fn law_lookup_exact_name(entries: Seq<(FunctionDesc_, StdlibFunction)>, key: DescV)
    ensures
        (lookup_entries(entries, key) is None) <==> (forall|i: int|
            0 <= i < entries.len() ==> #[trigger] entries[i].0@ != key),
        lookup_entries(entries, key) matches Some(b) ==> exists|i: int|
            0 <= i < entries.len() && #[trigger] entries[i].0@ == key && entries[i].1.f == b && (
            forall|j: int| 0 <= j < i ==> #[trigger] entries[j].0@ != key),
    decreases entries.len(),
{
    if entries.len() > 0 {
        let tail = entries.drop_first();
        law_lookup_exact_name(tail, key);
        assert(forall|i: int| 0 <= i < tail.len() ==> #[trigger] tail[i] == entries[i + 1]);
        if entries[0].0@ == key {
            assert(entries[0].0@ == key);
        } else {
            if lookup_entries(tail, key) is None {
                assert forall|i: int| 0 <= i < entries.len() implies #[trigger] entries[i].0@ != key by {
                    if i > 0 {
                        assert(tail[i - 1].0@ != key);
                    }
                }
            } else {
                let b = lookup_entries(tail, key)->0;
                let i = choose|i: int|
                    0 <= i < tail.len() && #[trigger] tail[i].0@ == key && tail[i].1.f == b && (
                    forall|j: int| 0 <= j < i ==> #[trigger] tail[j].0@ != key);
                assert(entries[i + 1].0@ == key);
                assert forall|j: int| 0 <= j < i + 1 implies #[trigger] entries[j].0@ != key by {
                    if j > 0 {
                        assert(tail[j - 1].0@ != key);
                    }
                }
            }
        }
    }
}

/// A call of a function, or an operator, whose name is not owned by `dark` in
/// the package `stdlib` evaluates none of its operands and gives a
/// missing-function error for that name, whatever its module and function name.
pub proof fn law_only_stdlib_names_resolve(
    fuel: nat,
    e: Expr_,
    st: Map<Seq<char>, DvalV>,
    c: Caller,
    d: Seq<i32>,
)
    requires
        match e {
            Expr_::FnCall { name, .. } => name@.0 != "dark"@ || name@.1 != "stdlib"@,
            Expr_::BinOp { op, .. } => op@.0 != "dark"@ || op@.1 != "stdlib"@,
            _ => false,
        },
    ensures
        eval_spec(fuel + 1, e, st, c, d) == (
            Some(
                DvalV::VSpecial(
                    SpecialV::VError(
                        c,
                        ErrorV::VMissingFunction(
                            match e {
                                Expr_::FnCall { name, .. } => name@,
                                Expr_::BinOp { op, .. } => op@,
                                _ => arbitrary(),
                            },
                        ),
                    ),
                ),
            ),
            d,
        ),
{
    match e {
        Expr_::FnCall { name, .. } => law_stdlib_names(name@),
        Expr_::BinOp { op, .. } => law_stdlib_names(op@),
        _ => {},
    }
}

/// `Int::mod` on `a` and `b` crashes exactly where `b` is zero or the
/// remainder overflows (`i32::MIN` by `-1`). Elsewhere it gives the remainder
/// of truncating division: `a` is a multiple of `b` plus the result, the
/// result is smaller than `b` in magnitude, and it is zero or has the sign of
/// `a`. It draws no random number.
pub proof fn law_int_mod_remainder(fuel: nat, name: DescV, c: Caller, a: i32, b: i32, d: Seq<i32>)
    ensures
        (b == 0 || (a == i32::MIN && b == -1)) ==> call_spec(
            fuel,
            Builtin::IntMod,
            name,
            c,
            seq![DvalV::VInt(a), DvalV::VInt(b)],
            d,
        ) == (None::<DvalV>, d),
        !(b == 0 || (a == i32::MIN && b == -1)) ==> {
            let (o, d2) = call_spec(
                fuel,
                Builtin::IntMod,
                name,
                c,
                seq![DvalV::VInt(a), DvalV::VInt(b)],
                d,
            );
            &&& d2 == d
            &&& o matches Some(DvalV::VInt(r)) && (exists|q: int| a == #[trigger] (q * b) + r) && (-(
            b as int) < r < b || b < r < -(b as int)) && (r == 0 || ((r > 0) == (a > 0)))
        },
{
    if !(b == 0 || (a == i32::MIN && b == -1)) {
        law_int_mod_is_remainder(a, b);
        let r = int_remainder(a, b);
        let q = choose|q: int| a == #[trigger] (q * b) + int_remainder(a, b);
        assert(a == (q * b) + r);
    }
}

/// The number that a decimal digit character stands for.
pub open spec fn digit_value(ch: char) -> int {
    (ch as int) - ('0' as int)
}

/// `s` is a decimal numeral: one or more of the characters `0` to `9`, with no
/// leading zero unless it is the single digit `0`.
pub open spec fn is_numeral(s: Seq<char>) -> bool {
    &&& s.len() > 0
    &&& forall|i: int| 0 <= i < s.len() ==> 0 <= #[trigger] digit_value(s[i]) <= 9
    &&& s[0] == '0' ==> s.len() == 1
}

/// The number that the decimal digits `s` stand for, most significant first.
pub open spec fn numeral_value(s: Seq<char>) -> int
    decreases s.len(),
{
    if s.len() == 0 {
        0
    } else {
        numeral_value(s.drop_last()) * 10 + digit_value(s.last())
    }
}

proof fn lemma_digit_char(n: nat)
    requires
        n < 10,
    ensures
        digit_value(digit_char(n)) == n,
{
}

proof fn lemma_nat_text_numeral(n: nat)
    ensures
        is_numeral(nat_text(n)),
        numeral_value(nat_text(n)) == n,
    decreases n,
{
    if n < 10 {
        lemma_digit_char(n);
        assert(nat_text(n).drop_last() =~= Seq::<char>::empty());
        assert(numeral_value(Seq::<char>::empty()) == 0);
        assert(nat_text(n).last() == digit_char(n));
    } else {
        lemma_nat_text_numeral(n / 10);
        lemma_digit_char(n % 10);
        let t = nat_text(n / 10);
        assert(nat_text(n) == t.push(digit_char(n % 10)));
        assert(nat_text(n).drop_last() =~= t);
        assert(nat_text(n)[0] == t[0]);
        assert(nat_text(n).last() == digit_char(n % 10));
        assert(numeral_value(nat_text(n)) == numeral_value(t) * 10 + digit_value(digit_char(n % 10)));
        if t[0] == '0' {
            assert(t.len() == 1);
            assert(t.drop_last() =~= Seq::<char>::empty());
            assert(numeral_value(Seq::<char>::empty()) == 0);
            assert(numeral_value(t) == digit_value(t[0]));
        }
        assert forall|i: int| 0 <= i < nat_text(n).len() implies 0 <= #[trigger] digit_value(
            nat_text(n)[i],
        ) <= 9 by {
            if i < t.len() {
                assert(nat_text(n)[i] == t[i]);
            }
        }
    }
}

/// `Int::toString` gives the decimal numeral of its integer: for a number not
/// below zero the digits whose value it is, with no leading zero; for a
/// negative one a `-` followed by the digits of its magnitude. It draws no
/// random number.
pub proof fn law_int_to_string_decimal(fuel: nat, name: DescV, c: Caller, a: i32, d: Seq<i32>)
    ensures
        call_spec(fuel, Builtin::IntToString, name, c, seq![DvalV::VInt(a)], d).1 == d,
        call_spec(fuel, Builtin::IntToString, name, c, seq![DvalV::VInt(a)], d).0 matches Some(
            DvalV::VStr(s),
        ) && (a >= 0 ==> is_numeral(s) && numeral_value(s) == a) && (a < 0 ==> s.len() > 0
            && s[0] == '-' && is_numeral(s.drop_first()) && numeral_value(s.drop_first()) == -a),
{
    if a >= 0 {
        lemma_nat_text_numeral(a as nat);
    } else {
        lemma_nat_text_numeral((-a) as nat);
        assert(int_text(a as int).drop_first() =~= nat_text((-a) as nat));
    }
}

/// A standard library function called with arguments it does not take gives
/// an incorrect-arguments error at the call, holding the function's name and
/// the arguments, and draws no random number. `Int::random` takes none,
/// `Int::toString` one integer, `Int::range`, `Int::eq` and `Int::mod` two
/// integers, and `List::map` a list and a lambda.
pub proof fn law_wrong_arguments_reported(
    fuel: nat,
    b: Builtin,
    name: DescV,
    c: Caller,
    args: Seq<DvalV>,
    d: Seq<i32>,
)
    requires
        match b {
            Builtin::IntRandom => args.len() != 0,
            Builtin::IntToString => !(args.len() == 1 && args[0] is VInt),
            Builtin::ListMap => !(args.len() == 2 && args[0] is VList && args[1] is VLambda),
            _ => !(args.len() == 2 && args[0] is VInt && args[1] is VInt),
        },
    ensures
        call_spec(fuel, b, name, c, args, d) == (
            Some(DvalV::VSpecial(SpecialV::VError(c, ErrorV::VIncorrectArguments(name, args)))),
            d,
        ),
{
}

/// `List::map` over the empty list gives the empty list, whatever the lambda;
/// over a list with members, a lambda without parameters makes evaluation
/// crash.
pub proof fn law_map_edges(
    fuel: nat,
    name: DescV,
    c: Caller,
    members: Seq<DvalV>,
    closure: Map<Seq<char>, DvalV>,
    params: Seq<Seq<char>>,
    body: Expr,
    d: Seq<i32>,
)
    ensures
        members.len() == 0 ==> call_spec(
            fuel,
            Builtin::ListMap,
            name,
            c,
            seq![DvalV::VList(members), DvalV::VLambda(closure, params, body)],
            d,
        ) == (Some(DvalV::VList(Seq::empty())), d),
        members.len() > 0 && params.len() == 0 ==> call_spec(
            fuel,
            Builtin::ListMap,
            name,
            c,
            seq![DvalV::VList(members), DvalV::VLambda(closure, params, body)],
            d,
        ).0 is None,
{
}

/// A caller belongs to the toplevel it names: a toplevel to itself, an
/// expression to the toplevel it stands in.
pub proof fn law_caller_toplevel(t: TLID, i: ID)
    ensures
        Caller::Toplevel(t).tlid() == t,
        Caller::Code(t, i).tlid() == t,
{
}

/// The patterns that parameters of the named types take: an `Int` or a `List`
/// parameter binds the one field of `DInt` or `DList` under its own name; a
/// `Lambda` parameter binds the three fields of `DLambda` under its name
/// followed by `_symtable`, `_vars` and `_body`; other types have none.
pub proof fn law_parameter_patterns(ty: Seq<char>, param: Seq<char>)
    ensures
        ty == "Int"@ ==> pattern_for(ty, param) == Some(("DInt"@, seq![param])),
        ty == "List"@ ==> pattern_for(ty, param) == Some(("DList"@, seq![param])),
        ty == "Lambda"@ ==> pattern_for(ty, param) == Some(
            ("DLambda"@, seq![param + "_symtable"@, param + "_vars"@, param + "_body"@]),
        ),
        ty != "Int"@ && ty != "List"@ && ty != "Lambda"@ ==> pattern_for(ty, param) is None,
{
    reveal_strlit("Int");
    reveal_strlit("List");
    reveal_strlit("Lambda");
    assert("Int"@.len() == 3 && "List"@.len() == 4 && "Lambda"@.len() == 6);
}

/// The printed form of a function name is its owner, `/`, its package, `/`,
/// its module, `::`, its function name, `_v`, and then the decimal numeral of
/// its version.
pub proof fn law_function_name_text(n: DescV)
    ensures
        ({
            let p = n.0 + "/"@ + n.1 + "/"@ + n.2 + "::"@ + n.3 + "_v"@;
            &&& desc_text(n).take(p.len() as int) == p
            &&& is_numeral(desc_text(n).skip(p.len() as int))
            &&& numeral_value(desc_text(n).skip(p.len() as int)) == n.4
        }),
{
    reveal_strlit("/");
    reveal_strlit("::");
    reveal_strlit("_v");
    assert("/"@ =~= seq!['/']);
    assert("::"@ =~= seq![':', ':']);
    assert("_v"@ =~= seq!['_', 'v']);
    let p = n.0 + "/"@ + n.1 + "/"@ + n.2 + "::"@ + n.3 + "_v"@;
    assert(desc_text(n) =~= p + nat_text(n.4 as nat));
    assert((p + nat_text(n.4 as nat)).take(p.len() as int) =~= p);
    assert((p + nat_text(n.4 as nat)).skip(p.len() as int) =~= nat_text(n.4 as nat));
    lemma_nat_text_numeral(n.4 as nat);
}

/// `List::map` over a list and a lambda with parameters returns the list of the
/// body's results where none was a special value, and otherwise the special
/// value it stopped at, as it is; it leaves the random numbers that the body's
/// evaluations left.
pub proof fn law_map_returns(
    fuel: nat,
    name: DescV,
    c: Caller,
    members: Seq<DvalV>,
    closure: Map<Seq<char>, DvalV>,
    params: Seq<Seq<char>>,
    body: Expr,
    d: Seq<i32>,
)
    requires
        params.len() > 0,
    ensures
        ({
            let call = call_spec(
                fuel,
                Builtin::ListMap,
                name,
                c,
                seq![DvalV::VList(members), DvalV::VLambda(closure, params, body)],
                d,
            );
            let m = map_spec(fuel, members, closure, params[0], *body, c, d);
            &&& m.0 matches Some(MapResult::All(vs)) ==> call == (Some(DvalV::VList(vs)), m.1)
            &&& m.0 matches Some(MapResult::Stopped(v)) ==> call == (Some(v), m.1)
            &&& m.0 is None ==> call.0 is None
        }),
{
}

} // verus!

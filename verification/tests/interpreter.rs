use execution_engine::dval::{dint, Dval, Dval_, Error, Special, SymTable};
use execution_engine::eval::{run, ExecState};
use execution_engine::expr::{
    eblank, ebinop, efn, eif, eint, elambda, elet, esfn, estr, evar, stdlib_fn, Expr, Expr_,
};
use execution_engine::runtime::{Caller, FunctionDesc_, ID, TLID};

fn state() -> ExecState {
    ExecState { caller: Caller::Toplevel(TLID::TLID(7)) }
}

fn names(ns: Vec<&'static str>) -> im_rc::Vector<&'static str> {
    im_rc::Vector::from(ns)
}

fn as_int(v: &Dval) -> i32 {
    match &**v {
        Dval_::DInt(i) => *i,
        other => panic!("expected an integer, got {:?}", other),
    }
}

fn as_str(v: &Dval) -> String {
    match &**v {
        Dval_::DStr(s) => s.clone(),
        other => panic!("expected a string, got {:?}", other),
    }
}

fn as_list(v: &Dval) -> Vec<Dval> {
    match &**v {
        Dval_::DList(l) => l.clone(),
        other => panic!("expected a list, got {:?}", other),
    }
}

fn expr_id(e: &Expr) -> ID {
    match &**e {
        Expr_::Let { id, .. }
        | Expr_::FnCall { id, .. }
        | Expr_::Lambda { id, .. }
        | Expr_::BinOp { id, .. }
        | Expr_::If { id, .. }
        | Expr_::Variable { id, .. }
        | Expr_::IntLiteral { id, .. }
        | Expr_::StringLiteral { id, .. }
        | Expr_::Blank { id } => *id,
    }
}

fn desc_parts(d: &FunctionDesc_) -> (String, String, String, String, u32) {
    let FunctionDesc_::FunctionDesc(o, p, m, n, v) = d;
    (o.clone(), p.clone(), m.clone(), n.clone(), *v)
}

#[test]
fn int_literal_evaluates_to_itself() {
    assert_eq!(as_int(&run(&state(), eint(42))), 42);
}

#[test]
fn string_literal_evaluates_to_itself() {
    assert_eq!(as_str(&run(&state(), estr("hello"))), "hello");
}

#[test]
fn let_binds_the_variable() {
    let program = elet("x", eint(3), evar("x"));
    assert_eq!(as_int(&run(&state(), program)), 3);
}

#[test]
fn inner_let_shadows_outer_let() {
    let program = elet("x", eint(1), elet("x", eint(2), evar("x")));
    assert_eq!(as_int(&run(&state(), program)), 2);
}

#[test]
fn range_lists_integers_up_to_end() {
    let r = run(&state(), esfn("Int", "range", 0, vec![eint(1), eint(4)]));
    let l = as_list(&r);
    assert_eq!(l.iter().map(as_int).collect::<Vec<_>>(), vec![1, 2, 3]);
}

#[test]
fn range_with_start_after_end_is_empty() {
    let r = run(&state(), esfn("Int", "range", 0, vec![eint(5), eint(2)]));
    assert!(as_list(&r).is_empty());
}

#[test]
fn range_of_zero_to_hundred_mapped_to_zero() {
    let program = elet(
        "range",
        stdlib_fn("Int", "range", 0, vec![eint(0), eint(100)]),
        stdlib_fn("List", "map", 0, vec![evar("range"), elambda(names(vec!["i"]), eint(0))]),
    );
    let l = as_list(&run(&state(), program));
    assert_eq!(l.len(), 100);
    assert!(l.iter().all(|v| as_int(v) == 0));
}

#[test]
fn to_string_writes_decimal_text() {
    let t = |i: i32| as_str(&run(&state(), esfn("Int", "toString", 0, vec![eint(i)])));
    assert_eq!(t(0), "0");
    assert_eq!(t(7), "7");
    assert_eq!(t(1234), "1234");
    assert_eq!(t(-42), "-42");
    assert_eq!(t(i32::MIN), "-2147483648");
    assert_eq!(t(i32::MAX), "2147483647");
}

#[test]
fn eq_compares_integers() {
    let r = run(&state(), esfn("Int", "eq", 0, vec![eint(3), eint(3)]));
    assert!(matches!(&*r, Dval_::DBool(true)));
    let r = run(&state(), ebinop(eint(3), "Int", "eq", 0, eint(4)));
    assert!(matches!(&*r, Dval_::DBool(false)));
}

#[test]
fn mod_takes_the_sign_of_the_dividend() {
    let m = |a: i32, b: i32| as_int(&run(&state(), ebinop(eint(a), "Int", "mod", 0, eint(b))));
    assert_eq!(m(7, 3), 1);
    assert_eq!(m(-7, 2), -1);
    assert_eq!(m(7, -2), 1);
    assert_eq!(m(-7, -2), -1);
    assert_eq!(m(i32::MIN, 1), 0);
}

#[test]
fn random_gives_an_integer() {
    let r = run(&state(), esfn("Int", "random", 0, vec![]));
    assert!(matches!(&*r, Dval_::DInt(_)));
}

#[test]
fn unknown_function_is_a_missing_function_error_at_the_caller() {
    let r = run(&state(), efn("dark", "stdlib", "Int", "nope", 0, vec![eint(1)]));
    match &*r {
        Dval_::DSpecial(Special::Error(caller, Error::MissingFunction(name))) => {
            assert_eq!(*caller, Caller::Toplevel(TLID::TLID(7)));
            assert_eq!(
                desc_parts(name),
                ("dark".into(), "stdlib".into(), "Int".into(), "nope".into(), 0)
            );
        },
        other => panic!("unexpected {:?}", other),
    }
}

#[test]
fn wrong_version_is_missing() {
    let r = run(&state(), esfn("Int", "range", 1, vec![eint(1), eint(2)]));
    assert!(matches!(&*r, Dval_::DSpecial(Special::Error(_, Error::MissingFunction(_)))));
}

#[test]
fn wrong_arguments_are_an_error_that_keeps_them() {
    let call = esfn("Int", "range", 0, vec![eint(1), estr("x")]);
    let call_id = expr_id(&call);
    let r = run(&state(), call);
    match &*r {
        Dval_::DSpecial(Special::Error(caller, Error::IncorrectArguments(name, args))) => {
            assert_eq!(*caller, Caller::Code(TLID::TLID(7), call_id));
            assert_eq!(name.to_string(), "dark/stdlib/Int::range_v0");
            assert_eq!(args.len(), 2);
            assert_eq!(as_int(&args[0]), 1);
            assert_eq!(as_str(&args[1]), "x");
        },
        other => panic!("unexpected {:?}", other),
    }
}

#[test]
fn random_with_arguments_is_incorrect() {
    let r = run(&state(), esfn("Int", "random", 0, vec![eint(1)]));
    assert!(matches!(&*r, Dval_::DSpecial(Special::Error(_, Error::IncorrectArguments(_, _)))));
}

#[test]
fn blank_is_incomplete_at_its_expression() {
    let b = eblank();
    let id = expr_id(&b);
    let r = run(&state(), b);
    match &*r {
        Dval_::DSpecial(Special::Incomplete(caller)) => {
            assert_eq!(*caller, Caller::Code(TLID::TLID(7), id));
        },
        other => panic!("unexpected {:?}", other),
    }
}

#[test]
fn if_chooses_a_branch() {
    let cond = ebinop(eint(2), "Int", "eq", 0, eint(2));
    assert_eq!(as_str(&run(&state(), eif(cond, estr("yes"), estr("no")))), "yes");
    let cond = ebinop(eint(2), "Int", "eq", 0, eint(3));
    assert_eq!(as_str(&run(&state(), eif(cond, estr("yes"), estr("no")))), "no");
}

#[test]
fn if_on_a_non_boolean_is_an_invalid_type_error() {
    let e = eif(eint(1), estr("yes"), estr("no"));
    let id = expr_id(&e);
    let r = run(&state(), e);
    match &*r {
        Dval_::DSpecial(Special::Error(caller, Error::InvalidType(v, _))) => {
            assert_eq!(*caller, Caller::Code(TLID::TLID(7), id));
            assert_eq!(as_int(v), 1);
        },
        other => panic!("unexpected {:?}", other),
    }
}

#[test]
fn lambda_closes_over_its_bindings() {
    let program = elet(
        "k",
        eint(10),
        esfn(
            "List",
            "map",
            0,
            vec![
                esfn("Int", "range", 0, vec![eint(0), eint(3)]),
                elambda(names(vec!["i"]), ebinop(evar("k"), "Int", "mod", 0, eint(4))),
            ],
        ),
    );
    let l = as_list(&run(&state(), program));
    assert_eq!(l.iter().map(as_int).collect::<Vec<_>>(), vec![2, 2, 2]);
}

#[test]
fn map_binds_the_first_parameter_to_each_member() {
    let program = esfn(
        "List",
        "map",
        0,
        vec![
            esfn("Int", "range", 0, vec![eint(3), eint(6)]),
            elambda(names(vec!["n", "unused"]), esfn("Int", "toString", 0, vec![evar("n")])),
        ],
    );
    let l = as_list(&run(&state(), program));
    assert_eq!(l.iter().map(as_str).collect::<Vec<_>>(), vec!["3", "4", "5"]);
}

#[test]
fn map_stops_at_the_first_special_value() {
    let body = eif(ebinop(evar("i"), "Int", "eq", 0, eint(2)), eblank(), evar("i"));
    let blank_id = match &*body {
        Expr_::If { then_body, .. } => expr_id(then_body),
        _ => unreachable!(),
    };
    let program = esfn(
        "List",
        "map",
        0,
        vec![esfn("Int", "range", 0, vec![eint(0), eint(5)]), elambda(names(vec!["i"]), body)],
    );
    let r = run(&state(), program);
    match &*r {
        Dval_::DSpecial(Special::Incomplete(caller)) => {
            assert_eq!(*caller, Caller::Code(TLID::TLID(7), blank_id));
        },
        other => panic!("unexpected {:?}", other),
    }
}

#[test]
fn map_of_an_empty_list_with_no_parameters_is_empty() {
    let program = esfn(
        "List",
        "map",
        0,
        vec![esfn("Int", "range", 0, vec![eint(1), eint(1)]), elambda(names(vec![]), eint(0))],
    );
    assert!(as_list(&run(&state(), program)).is_empty());
}

#[test]
fn map_on_a_non_list_is_incorrect() {
    let program = esfn("List", "map", 0, vec![eint(1), elambda(names(vec!["i"]), eint(0))]);
    let r = run(&state(), program);
    assert!(matches!(&*r, Dval_::DSpecial(Special::Error(_, Error::IncorrectArguments(_, _)))));
}

fn fizzbuzz_body(op_mod: &str, op_eq: &str) -> Expr {
    let test = |n: i32| {
        ebinop(ebinop(evar("i"), "Int", op_mod, 0, eint(n)), "Int", op_eq, 0, eint(0))
    };
    eif(
        test(15),
        estr("fizzbuzz"),
        eif(
            test(5),
            estr("buzz"),
            eif(test(3), estr("fizz"), esfn("Int", "toString", 0, vec![evar("i")])),
        ),
    )
}

#[test]
fn fizzbuzz_with_the_library_names() {
    let program = elet(
        "range",
        esfn("Int", "range", 0, vec![eint(1), eint(16)]),
        esfn("List", "map", 0, vec![evar("range"), elambda(names(vec!["i"]), fizzbuzz_body("mod", "eq"))]),
    );
    let l = as_list(&run(&state(), program));
    let got: Vec<String> = l.iter().map(as_str).collect();
    assert_eq!(
        got,
        vec![
            "1", "2", "fizz", "4", "buzz", "fizz", "7", "8", "fizz", "buzz", "11", "fizz", "13",
            "14", "fizzbuzz",
        ]
    );
}

#[test]
fn fizzbuzz_with_symbolic_operators_reports_the_missing_operator() {
    let body = fizzbuzz_body("%", "==");
    let if_id = expr_id(&body);
    let map = esfn("List", "map", 0, vec![evar("range"), elambda(names(vec!["i"]), body)]);
    let map_id = expr_id(&map);
    let program = elet("range", esfn("Int", "range", 0, vec![eint(1), eint(100)]), map);
    let r = run(&state(), program);
    match &*r {
        Dval_::DSpecial(Special::Error(caller, Error::InvalidType(v, _))) => {
            assert_eq!(*caller, Caller::Code(TLID::TLID(7), if_id));
            match &**v {
                Dval_::DSpecial(Special::Error(inner, Error::MissingFunction(name))) => {
                    assert_eq!(*inner, Caller::Code(TLID::TLID(7), map_id));
                    assert_eq!(name.to_string(), "dark/stdlib/Int::==_v0");
                },
                other => panic!("unexpected {:?}", other),
            }
        },
        other => panic!("unexpected {:?}", other),
    }
}

#[test]
fn symbol_table_update_then_get() {
    let st = SymTable::new();
    assert!(st.get(&"x".to_string()).is_none());
    let st1 = st.update("x".to_string(), dint(1));
    let st2 = st1.update("y".to_string(), dint(2));
    let st3 = st2.update("x".to_string(), dint(3));
    assert_eq!(as_int(&st3.get(&"x".to_string()).unwrap()), 3);
    assert_eq!(as_int(&st3.get(&"y".to_string()).unwrap()), 2);
    assert_eq!(as_int(&st2.get(&"x".to_string()).unwrap()), 1);
    assert!(st.get(&"x".to_string()).is_none());
}

#[test]
fn a_program_without_random_gives_the_same_result_each_run() {
    let program = || {
        esfn(
            "List",
            "map",
            0,
            vec![
                esfn("Int", "range", 0, vec![eint(-3), eint(3)]),
                elambda(names(vec!["i"]), ebinop(evar("i"), "Int", "mod", 0, eint(2))),
            ],
        )
    };
    let a: Vec<i32> = as_list(&run(&state(), program())).iter().map(as_int).collect();
    let b: Vec<i32> = as_list(&run(&state(), program())).iter().map(as_int).collect();
    assert_eq!(a, b);
    assert_eq!(a, vec![-1, 0, -1, 0, 1, 0]);
}

#[test]
fn different_integers_print_differently() {
    let t = |i: i32| as_str(&run(&state(), esfn("Int", "toString", 0, vec![eint(i)])));
    let texts: Vec<String> = [-10, -1, 0, 1, 10, 100].iter().map(|i| t(*i)).collect();
    for (x, a) in texts.iter().enumerate() {
        for (y, b) in texts.iter().enumerate() {
            assert_eq!(x == y, a == b);
        }
    }
}

#[test]
fn mapping_the_identity_lambda_gives_back_the_list() {
    let program = esfn(
        "List",
        "map",
        0,
        vec![
            esfn("Int", "range", 0, vec![eint(4), eint(8)]),
            elambda(execution_engine::names::param_names(&vec!["i"]), evar("i")),
        ],
    );
    let l = as_list(&run(&state(), program));
    assert_eq!(l.iter().map(as_int).collect::<Vec<_>>(), vec![4, 5, 6, 7]);
}

use execution_engine::dval::{dstr, list, Dval_};
use execution_engine::runtime::{gid, gtlid, Caller, FunctionDesc_, ID, TLID};
use execution_engine::text::i32_text;

#[test]
fn to_tlid_of_toplevel_and_code() {
    assert_eq!(Caller::Toplevel(TLID::TLID(3)).to_tlid(), TLID::TLID(3));
    assert_eq!(Caller::Code(TLID::TLID(4), ID::ID(9)).to_tlid(), TLID::TLID(4));
}

#[test]
fn function_name_prints_with_version() {
    let d = FunctionDesc_::FunctionDesc(
        "dark".to_string(),
        "stdlib".to_string(),
        "List".to_string(),
        "map".to_string(),
        12,
    );
    assert_eq!(d.to_string(), "dark/stdlib/List::map_v12");
}

#[test]
fn same_name_compares_every_part() {
    let mk = |m: &str, v: u32| {
        FunctionDesc_::FunctionDesc("dark".into(), "stdlib".into(), m.into(), "f".into(), v)
    };
    assert!(mk("Int", 0).same_as(&mk("Int", 0)));
    assert!(!mk("Int", 0).same_as(&mk("Int", 1)));
    assert!(!mk("Int", 0).same_as(&mk("List", 0)));
}

#[test]
fn fresh_identifiers_are_identifiers() {
    let ID::ID(_) = gid();
    let TLID::TLID(_) = gtlid();
}

#[test]
fn decimal_text_of_integers() {
    assert_eq!(i32_text(0), "0");
    assert_eq!(i32_text(10), "10");
    assert_eq!(i32_text(-1), "-1");
    assert_eq!(i32_text(i32::MIN), "-2147483648");
}

#[test]
fn special_values_are_recognised() {
    assert!(!dstr("a").is_special());
    assert!(!list(vec![]).is_special());
    let e = execution_engine::dval::dincomplete(&Caller::Toplevel(TLID::TLID(1)));
    assert!(e.is_special());
    assert!(matches!(&*e, Dval_::DSpecial(_)));
}

#[test]
fn function_names_compare_with_eq() {
    let mk = |n: &str| {
        FunctionDesc_::FunctionDesc("dark".into(), "stdlib".into(), "Int".into(), n.into(), 0)
    };
    assert!(mk("eq") == mk("eq"));
    assert!(mk("eq") != mk("mod"));
}

#[test]
fn table_entries_print_as_function() {
    let f = execution_engine::runtime::StdlibFunction {
        f: execution_engine::runtime::Builtin::IntEq,
    };
    assert_eq!(f.debug_text(), "function");
}

#[test]
fn standard_library_has_six_entries() {
    assert_eq!(execution_engine::runtime::stdlib().len(), 6);
}

#[test]
fn parameter_types_match_value_variants() {
    let p = |t: &str| execution_engine::dval::pattern_variant(&t.to_string(), &"l".to_string());
    assert_eq!(p("Int"), Some(("DInt".to_string(), vec!["l".to_string()])));
    assert_eq!(p("List"), Some(("DList".to_string(), vec!["l".to_string()])));
    assert_eq!(
        p("Lambda"),
        Some((
            "DLambda".to_string(),
            vec!["l_symtable".to_string(), "l_vars".to_string(), "l_body".to_string()]
        ))
    );
    assert_eq!(p("Str"), None);
}

#[test]
fn parameter_names_keep_their_order() {
    let v = execution_engine::names::param_names(&vec!["a", "b", "c"]);
    assert_eq!(v.len(), 3);
    assert_eq!(v[0], "a");
    assert_eq!(v[2], "c");
}

#[test]
fn an_integer_converts_to_a_literal() {
    let e = execution_engine::expr::Expr_::from(9);
    assert!(matches!(e, execution_engine::expr::Expr_::IntLiteral { val: 9, .. }));
}

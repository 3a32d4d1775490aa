//! Expressions of the language and the functions that build them.
use std::rc::Rc;
use vstd::prelude::*;

use crate::names::{str_vector_get, str_vector_items, str_vector_len, string_vector_items, string_vector_new, string_vector_push_back};
use crate::runtime::{gid, stdlib_desc_view, FunctionDesc_, ID};

verus! {

/// An expression. Every expression carries an identifier, which values that
/// it produces (a blank, an error) name as their origin.
#[derive(Debug)]
#[allow(inconsistent_fields)]
pub enum Expr_ {
    /// `let lhs = rhs in body`
    Let { id: ID, lhs: String, rhs: Expr, body: Expr },
    /// A call of a named function with arguments. The arguments are
    /// expressions again, which an outside collection type such as
    /// `im_rc::Vector` cannot hold inside a type defined through itself (and
    /// behind an opaque struct the view of an expression could not be shown to
    /// terminate), so they are a `Vec`.
    FnCall { id: ID, name: FunctionDesc_, args: Vec<Expr> },
    /// A function literal with parameter names.
    Lambda { id: ID, params: im_rc::Vector<String>, body: Expr },
    /// An operator, a named function applied to two operands.
    BinOp { id: ID, lhs: Expr, op: FunctionDesc_, rhs: Expr },
    /// `if cond then then_body else else_body`
    If { id: ID, cond: Expr, then_body: Expr, else_body: Expr },
    /// A variable.
    Variable { id: ID, name: String },
    /// An integer literal.
    IntLiteral { id: ID, val: i32 },
    /// A string literal.
    StringLiteral { id: ID, val: String },
    /// A hole that the programmer has not filled in yet.
    Blank { id: ID },
}

pub type Expr = Rc<Expr_>;

/// The expression that a shared pointer points to.
pub open spec fn node(e: &Expr) -> Expr_ {
    **e
}

impl From<i32> for Expr_ {
    /// An integer literal, with a fresh identifier.
    fn from(item: i32) -> (e: Self)
        ensures
            match e {
                Expr_::IntLiteral { id: _, val } => val == item,
                _ => false,
            },
    {
        Expr_::IntLiteral { id: gid(), val: item }
    }
}

impl vstd::std_specs::convert::FromSpecImpl<i32> for Expr_ {
    /// The literal's identifier is drawn at random, so no single expression is
    /// the result for a given integer.
    open spec fn obeys_from_spec() -> bool {
        false
    }

    open spec fn from_spec(item: i32) -> Self {
        Expr_::IntLiteral { id: ID::ID(0), val: item }
    }
}

/// `let lhs = rhs in body`, with a fresh identifier.
pub fn elet(lhs: &str, rhs: Expr, body: Expr) -> (e: Expr)
    ensures
        match *e {
            Expr_::Let { id: _, lhs: l, rhs: r, body: b } => l@ == lhs@ && r == rhs && b == body,
            _ => false,
        },
{
    Rc::new(Expr_::Let { id: gid(), lhs: lhs.to_string(), rhs, body })
}

/// A string literal, with a fresh identifier.
pub fn estr(val: &str) -> (e: Expr)
    ensures
        match *e {
            Expr_::StringLiteral { id: _, val: v } => v@ == val@,
            _ => false,
        },
{
    Rc::new(Expr_::StringLiteral { id: gid(), val: val.to_string() })
}

/// An integer literal, with a fresh identifier.
pub fn eint(val: i32) -> (e: Expr)
    ensures
        match *e {
            Expr_::IntLiteral { id: _, val: v } => v == val,
            _ => false,
        },
{
    Rc::new(Expr_::IntLiteral { id: gid(), val })
}

/// A variable, with a fresh identifier.
pub fn evar(name: &str) -> (e: Expr)
    ensures
        match *e {
            Expr_::Variable { id: _, name: n } => n@ == name@,
            _ => false,
        },
{
    Rc::new(Expr_::Variable { id: gid(), name: name.to_string() })
}

/// A function literal with the given parameter names, with a fresh identifier.
pub fn elambda(names: im_rc::Vector<&str>, body: Expr) -> (e: Expr)
    ensures
        match *e {
            Expr_::Lambda { id: _, params: p, body: b } => string_vector_items(p)
                == str_vector_items(names) && b == body,
            _ => false,
        },
{
    let n = str_vector_len(&names);
    let mut params = string_vector_new();
    let mut i: usize = 0;
    while i < n
        invariant
            n == str_vector_items(names).len(),
            i <= n,
            string_vector_items(params) == str_vector_items(names).take(i as int),
        decreases n - i,
    {
        let name = str_vector_get(&names, i);
        string_vector_push_back(&mut params, name.to_string());
        assert(str_vector_items(names).take(i + 1) =~= str_vector_items(names).take(i as int).push(
            str_vector_items(names)[i as int],
        ));
        i += 1;
    }
    assert(str_vector_items(names).take(n as int) =~= str_vector_items(names));
    Rc::new(Expr_::Lambda { id: gid(), params, body })
}

/// `if cond then then_body else else_body`, with a fresh identifier.
pub fn eif(cond: Expr, then_body: Expr, else_body: Expr) -> (e: Expr)
    ensures
        match *e {
            Expr_::If { id: _, cond: c, then_body: t, else_body: f } => c == cond && t == then_body
                && f == else_body,
            _ => false,
        },
{
    Rc::new(Expr_::If { id: gid(), cond, then_body, else_body })
}

/// The operator `op` of the standard library module `module`, of the given
/// version, applied to `lhs` and `rhs`, with a fresh identifier.
pub fn ebinop(lhs: Expr, module: &str, op: &str, version: u32, rhs: Expr) -> (e: Expr)
    ensures
        match *e {
            Expr_::BinOp { id: _, lhs: l, op: o, rhs: r } => l == lhs && o@ == stdlib_desc_view(
                module@,
                op@,
                version,
            ) && r == rhs,
            _ => false,
        },
{
    Rc::new(
        Expr_::BinOp {
            id: gid(),
            lhs,
            op: FunctionDesc_::FunctionDesc(
                "dark".to_string(),
                "stdlib".to_string(),
                module.to_string(),
                op.to_string(),
                version,
            ),
            rhs,
        },
    )
}

/// A blank, with a fresh identifier.
pub fn eblank() -> (e: Expr)
    ensures
        *e is Blank,
{
    Rc::new(Expr_::Blank { id: gid() })
}

/// A call of the function `owner/package/module::name_v{version}`, with a
/// fresh identifier.
pub fn efn(owner: &str, package: &str, module: &str, name: &str, version: u32, args: Vec<Expr>) -> (e:
    Expr)
    ensures
        match *e {
            Expr_::FnCall { id: _, name: n, args: a } => n@ == (
                owner@,
                package@,
                module@,
                name@,
                version,
            ) && a == args,
            _ => false,
        },
{
    Rc::new(
        Expr_::FnCall {
            id: gid(),
            name: FunctionDesc_::FunctionDesc(
                owner.to_string(),
                package.to_string(),
                module.to_string(),
                name.to_string(),
                version,
            ),
            args,
        },
    )
}

/// A call of the standard library function `module::name_v{version}`, with a
/// fresh identifier.
pub fn esfn(module: &str, name: &str, version: u32, args: Vec<Expr>) -> (e: Expr)
    ensures
        match *e {
            Expr_::FnCall { id: _, name: n, args: a } => n@ == stdlib_desc_view(
                module@,
                name@,
                version,
            ) && a == args,
            _ => false,
        },
{
    efn("dark", "stdlib", module, name, version, args)
}

/// A call of the standard library function `module::name_v{version}`, with a
/// fresh identifier; the same expression as [`esfn`] builds.
pub fn stdlib_fn(module: &str, name: &str, version: u32, args: Vec<Expr>) -> (e: Expr)
    ensures
        match *e {
            Expr_::FnCall { id: _, name: n, args: a } => n@ == stdlib_desc_view(
                module@,
                name@,
                version,
            ) && a == args,
            _ => false,
        },
{
    esfn(module, name, version, args)
}

} // verus!

//! A small interpreter for an expression language: expressions with `let`,
//! lambdas, `if`, variables, literals, blanks, binary operators and calls of
//! standard library functions, evaluated to runtime values.
use vstd::prelude::*;

pub mod dval;
pub mod errors;
pub mod eval;
pub mod expr;
pub mod laws;
pub mod names;
pub mod runtime;
pub mod semantics;
pub mod stdlib_laws;
pub mod text;

verus! {

} // verus!

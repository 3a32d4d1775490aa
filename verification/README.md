# execution_engine

An interpreter for a small expression language (`let`, lambdas, `if`,
variables, integer and string literals, blanks, operators and calls of a
standard library), written in Verus and proved against a mathematical
description of evaluation.

- `src/expr.rs`: expressions and the functions that build them.
- `src/dval.rs`: runtime values, errors, symbol tables, and their views as
  plain values.
- `src/runtime.rs`: function names, callers, identifiers, the standard
  library table.
- `src/semantics.rs`: evaluation as spec functions, bounded by a nesting
  depth and fed the random numbers that `Int::random` draws.
- `src/eval.rs`: the executable evaluator and the standard library
  functions, each proved to compute what `semantics.rs` describes.
- `src/laws.rs`: properties proved of evaluation as a whole.
- `src/text.rs`: decimal text of integers.
- `src/names.rs`: parameter-name lists held in `im_rc::Vector`.
- `app/`: a program that runs FizzBuzz, and the syntax-tree code of an
  attribute macro for writing standard library entries as typed functions.
  It is not wired as a procedural macro; the library's entries are written
  out in `src/eval.rs`, and the one decision of the macro that works on plain
  values (which value pattern a parameter of each type matches) is
  `dval::pattern_variant`.

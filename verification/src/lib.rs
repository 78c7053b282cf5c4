//! Front end and evaluator for a small imperative language: a lexer that
//! turns source text into tokens, a recursive-descent parser that builds an
//! abstract syntax tree, a static resolver that binds variable references to
//! their declaring scope, and a tree-walking interpreter.
//!
//! Numbers in the language are IEEE 754 double-precision values.  Since this
//! crate is verified, a number is carried everywhere as its 64-bit pattern,
//! and the arithmetic on those patterns is done by `rustc_apfloat`, a software
//! implementation of the same format, behind a small set of trusted wrappers
//! in [`numbers`].
//!
//! Two visible consequences of that choice.  The display form of a number
//! is `rustc_apfloat`'s decimal rendering, which can differ in spelling
//! from Rust's own `f64` formatting (`6.2` prints as
//! `6.2000000000000002`, infinities as `+Inf`/`-Inf`).  And evaluation is
//! metered: the interpreter spends one unit of fuel per evaluation step
//! from a budget of `u64::MAX`, so a computation needing more steps —
//! beyond any feasible run — ends in the runtime error `Execution limit
//! exceeded` instead of running on.

pub mod interpreter;
pub mod numbers;
pub mod parser;
pub mod textops;
pub mod tokenizer;
pub mod visitor;

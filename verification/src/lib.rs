//! An interactive evaluator for a minimal symbolic-expression language:
//! atoms (numbers, symbols, functions, built-ins) and immutable linked
//! lists, with lexically scoped closures and four arithmetic operators.

pub mod ast;
pub mod env;
pub mod eval;
pub mod num;

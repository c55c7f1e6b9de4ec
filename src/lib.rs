//! A tree-walking evaluator for a small expression language: arithmetic,
//! relational, logical and bitwise operators, conditionals, sequential
//! bindings, single-parameter function literals and identifier references.
//!
//! - `json`: the syntax-tree document (ESTree-shaped JSON) the builder reads.
//! - `builder`: turns a document into an immutable `expr::Expr` tree.
//! - `eval`: reduces an expression and an environment (`value::Environ`) to a
//!   `value::Value` or an `error::EvalError`.
//! - `print`: the canonical parenthesized text of expressions and values.
//! - `ieee`: what can be read off an IEEE-754 double's bits. Floating-point
//!   arithmetic and formatting come from a host (`eval::FloatHost`).
//! - `laws`: properties of the language, proved for every input.
pub mod builder;
pub mod error;
pub mod eval;
pub mod expr;
pub mod ieee;
pub mod json;
pub mod laws;
pub mod print;
pub mod program;
pub mod value;

pub use program::Program;
pub use value::{FnValue, Value};

//! A tree-walking interpreter for a small dynamically typed expression and
//! statement language: literals, arithmetic, comparisons, logical operators
//! with short-circuit evaluation, a ternary conditional, variables with
//! lexically scoped blocks, `if`/`while`/`for`, and a `print` statement.
//!
//! The pipeline is: source text -> [`scanner::Scanner`] (tokens) ->
//! [`parser::Parser`] (statement syntax trees) -> [`interpreter::Interpreter`]
//! (evaluation against a chain of scopes, collecting printed lines).

pub mod ast;
pub mod environment;
pub mod error;
pub mod interpreter;
pub mod number;
pub mod parser;
pub mod scanner;
pub mod text;
pub mod token;
pub mod value;

pub use interpreter::Interpreter;
pub use scanner::Scanner;

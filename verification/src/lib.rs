//! Evaluation core of a small imperative expression language: a tokenizer,
//! a precedence-driven evaluator, block-scoped variables and a tagged value
//! model with checked arithmetic.

pub mod element;
pub mod errors;
pub mod evaluate;
pub mod evaluater;
pub mod laws;
pub mod literal;
pub mod op;
pub mod ordering;
pub mod parser;
pub mod semantics;
pub mod splitting;
pub mod text;
pub mod value;
pub mod variables;

pub use element::ElementType;
pub use errors::{ParseError, ParseErrorType};
pub use evaluater::Evaluater;
pub use parser::ExprParser;
pub use splitting::CharType;
pub use value::VarType;

//! A tokenizer and recursive-descent parser for a minimal imperative language,
//! with the behaviour of every function stated as a contract and proved.

pub mod codegen;
pub mod lexer;
pub mod text;
pub mod parsing;

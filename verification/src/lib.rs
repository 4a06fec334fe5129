//! A small line-oriented BASIC: a lexer, a parser, an interpreter and a code
//! generator that emits Rust source.
//!
//! Source text goes through [`lexer::tokenize`] and [`parser::parse`] to a
//! [`ast::Program`], which [`interpreter::Interpreter`] runs or
//! [`compiler::Compiler`] turns into source text.
//!
//! The crate holds no floating-point code. A number at run time is an IEEE
//! 754 binary64 bit pattern ([`number::Number`]), and the interpreter itself
//! compares numbers and tests them for zero. Arithmetic, the value of a
//! literal and console input it asks of its host: a run stops with a
//! [`value::Request`] and goes on with the host's [`value::Reply`].

pub mod number;
pub mod text;
pub mod token;
pub mod lexer;
pub mod ast;
pub mod parser;
pub mod value;
pub mod environment;
pub mod semantics;
pub mod interpreter;
pub mod compiler;
pub mod random;

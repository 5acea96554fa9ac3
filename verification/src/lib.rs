//! A verified interpreter for Atomic, a tiny line-oriented scripting
//! language: a whitespace lexer, a single-pass parser, and an evaluator
//! over a mutable table of 32-bit integer variables.

pub mod arith;
pub mod ast;
pub mod environment;
pub mod executor;
pub mod laws;
pub mod lexer;
pub mod numerals;
pub mod parser;
pub mod render;
pub mod text;
pub mod words;

//! The embedded scripting language: lexer, parser and interpreter.

pub mod ast;
pub mod runtime;
pub mod token;

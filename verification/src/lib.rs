//! Document-processing core of a small browser engine: a markup tokenizer, a
//! tree builder, and a lexer, parser and interpreter for an embedded scripting
//! language, each with a machine-checked contract.

pub mod display_item;
pub mod error;
pub mod http;
pub mod renderer;
pub mod text;
pub mod ui;
pub mod url;
pub mod utils;

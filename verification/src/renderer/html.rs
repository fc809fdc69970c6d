//! Markup tokens, the tokenizer that produces them and the tree builder
//! that consumes them.

pub mod attribute;
pub mod parser;
pub mod token;

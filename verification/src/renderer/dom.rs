//! The document tree and the queries that scripts make of it.

pub mod api;
pub mod node;

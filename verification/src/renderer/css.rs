//! Style sheets.

pub mod token;

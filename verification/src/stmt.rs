//! The statement layer: the top-level parseable units.

pub mod select;
pub mod stmt;

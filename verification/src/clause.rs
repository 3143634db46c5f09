//! The keyword-introduced clauses of a statement.

pub mod from;
pub mod select;

//! The generic expression layer of the grammar: names, optional aliases,
//! and comma-separated items lists.

pub mod alias;
pub mod items;
pub mod name;

//! The item fragments of the grammar: what may stand in a `SELECT`
//! items-list and in a `FROM` items-list.

pub mod from_item;
pub mod select_item;

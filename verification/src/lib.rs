//! A verified front end for a minimal SQL query language: a tokenizer that
//! turns query text into a sequence of located lexical tokens, and a
//! recursive-descent parser that builds a typed syntax tree for
//! `SELECT <items> FROM <items>` statements, or reports a structured
//! syntax error with source positions.

use vstd::prelude::*;

pub mod chars;
pub mod clause;
pub mod err;
pub mod expr;
pub mod frag;
pub mod laws;
pub mod lexer;
pub mod mat;
pub mod parser;
pub mod pattern;
pub mod stmt;

verus! {

/// A construct with a fixed human-readable name, used in diagnostics.
pub trait Named {
    /// The display name of the construct.
    const NAMED: &'static str;
}

/// An enumeration whose variants each carry a fixed display name.
pub trait NamedEnum {
    /// The display name of this variant.
    fn name(&self) -> &'static str;
}

/// A type with a fixed, enumerable set of representative values.
pub trait Values where Self: Sized {
    /// The representative values of the type.
    fn values() -> Vec<Self>;
}

/// Loose equivalence: equality up to a type's own notion of sameness
/// (for tokens, sameness of kind regardless of matched text).
pub trait Is<Rhs: ?Sized = Self> {
    /// Whether `self` and `other` are equivalent.
    fn is(&self, other: &Rhs) -> bool;

    /// Whether `self` and `other` are not equivalent.
    fn is_not(&self, other: &Rhs) -> bool {
        !self.is(other)
    }
}

/// A cursor position, counted in tokens or characters.
#[derive(Debug, Clone, PartialEq, Eq, Structural)]
pub struct Offset {
    pub value: usize,
}

impl Offset {
    /// Makes a cursor that stands at `value`.
    pub fn new(value: usize) -> (r: Self)
        ensures
            r.value == value,
    {
        Offset { value }
    }

    /// Moves the cursor forward by `step`.
    pub fn increment(&mut self, step: usize)
        requires
            old(self).value + step <= usize::MAX,
        ensures
            final(self).value == old(self).value + step,
    {
        self.value = self.value + step;
    }
}

} // verus!

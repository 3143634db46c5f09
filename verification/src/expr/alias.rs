//! The alias production: an inner construct optionally renamed by an
//! `AS <name>` suffix.

use vstd::prelude::*;

use crate::err::{ErrView, SyntaxError};
use crate::expr::name::NameExpr;
use crate::lexer::{LexKind, Lexer};
use crate::parser::{LexerParser, SrcView, SyntaxPattern};
use crate::Named;

verus! {

/// The mathematical value of an [`AliasExpr`]: the inner value and the
/// optional alias text.
pub struct AliasView<V> {
    pub value: V,
    pub alias: Option<Seq<char>>,
}

/// A construct optionally renamed: the inner value, and the alias name
/// when an `AS` keyword token followed it.
#[derive(Debug, Clone, PartialEq, Eq)]
pub struct AliasExpr<T> where T: Sized + LexerParser {
    pub value: T,
    pub alias: Option<NameExpr>,
}

impl<T: LexerParser> View for AliasExpr<T> {
    type V = AliasView<T::V>;

    open spec fn view(&self) -> AliasView<T::V> {
        AliasView {
            value: self.value@,
            alias: match self.alias {
                Some(n) => Some(n@),
                None => None,
            },
        }
    }
}

impl<T: LexerParser> Named for AliasExpr<T> {
    const NAMED: &'static str = "alias expression";
}

impl<T: LexerParser> AliasExpr<T> {
    /// Makes an aliased value.
    pub fn new(value: T, alias: NameExpr) -> (r: Self)
        ensures
            r@.value == value@,
            r@.alias == Some(alias@),
    {
        AliasExpr { value, alias: Some(alias) }
    }

    /// Makes a value that carries no alias.
    pub fn new_without_alias(value: T) -> (r: Self)
        ensures
            r@.value == value@,
            r@.alias is None,
    {
        AliasExpr { value, alias: None }
    }
}

impl<T: LexerParser> LexerParser for AliasExpr<T> {
    /// Parses the inner construct; when the token just past it is the
    /// `AS` keyword, a name must follow and becomes the alias, and any
    /// failure of that name propagates. Otherwise the value stands alone
    /// and no further input is consumed.
    open spec fn spec_parse(source: SrcView, index: int) -> Result<
        (AliasView<T::V>, int),
        ErrView,
    > {
        match T::spec_parse(source, index) {
            Err(e) => Err(e),
            Ok((value, j)) => {
                if 0 <= j < source.items.len() && source.items[j].kind == LexKind::Alias {
                    match NameExpr::spec_parse(source, j + 1) {
                        Err(e) => Err(e),
                        Ok((nm, k)) => Ok((AliasView { value, alias: Some(nm) }, k)),
                    }
                } else {
                    Ok((AliasView { value, alias: None }, j))
                }
            },
        }
    }

    fn parse(source: &SyntaxPattern, index: usize) -> (r: Result<(Self, usize), SyntaxError>) {
        match T::parse(source, index) {
            Ok((value, value_end_index)) => match source.items.get(value_end_index) {
                Some(lexer) => match lexer {
                    Lexer::ALIAS(_) => match NameExpr::parse(source, value_end_index + 1) {
                        Ok((alias, alias_end_index)) => Ok(
                            (AliasExpr::new(value, alias), alias_end_index),
                        ),
                        Err(err) => Err(err),
                    },
                    _ => Ok((AliasExpr::new_without_alias(value), value_end_index)),
                },
                None => Ok((AliasExpr::new_without_alias(value), value_end_index)),
            },
            Err(err) => Err(err),
        }
    }

    proof fn lemma_parse_advances(source: SrcView, index: int) {
        T::lemma_parse_advances(source, index);
    }
}

} // verus!

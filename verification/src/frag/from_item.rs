//! One source-table reference: a name.

use vstd::prelude::*;

use crate::err::{ErrView, SyntaxError};
use crate::expr::name::NameExpr;
use crate::lexer::{LexKind, Lexer};
use crate::mat::{LexerMatch, MatView};
use crate::parser::{LexerParser, SrcView, SyntaxPattern};
use crate::{Named, NamedEnum};

verus! {

/// The mathematical value of a [`FromItem`].
pub enum FromItemView {
    Name(Seq<char>),
}

/// One source table: a named table reference.
#[derive(Debug, Clone, PartialEq, Eq)]
pub enum FromItem {
    NAME(NameExpr),
}

impl View for FromItem {
    type V = FromItemView;

    open spec fn view(&self) -> FromItemView {
        match self {
            FromItem::NAME(n) => FromItemView::Name(n@),
        }
    }
}

impl Named for FromItem {
    const NAMED: &'static str = "from item";
}

impl NamedEnum for FromItem {
    /// The display name of this variant.
    fn name(&self) -> (r: &'static str)
        ensures
            r@ == "name expression"@,
    {
        match self {
            FromItem::NAME(_) => "name expression",
        }
    }
}

impl LexerParser for FromItem {
    /// Succeeds exactly on a name token at `index`, yielding a named
    /// table; any other token, or the end of input, is a missing from
    /// item at that position.
    open spec fn spec_parse(source: SrcView, index: int) -> Result<(FromItemView, int), ErrView> {
        if 0 <= index < source.items.len() {
            let t = source.items[index];
            if t.kind == LexKind::Name {
                match NameExpr::spec_parse(source, index) {
                    Ok((nm, j)) => Ok((FromItemView::Name(nm), j)),
                    Err(e) => Err(e),
                }
            } else {
                Err(ErrView::missing(t.mat, "from item"@))
            }
        } else {
            Err(ErrView::missing(MatView::eof(source.text), "from item"@))
        }
    }

    fn parse(source: &SyntaxPattern, index: usize) -> (r: Result<(Self, usize), SyntaxError>) {
        match source.items.get(index) {
            Some(lexer) => match lexer {
                Lexer::NAME(_) => match NameExpr::parse(source, index) {
                    Ok((expr, end_index)) => Ok((FromItem::NAME(expr), end_index)),
                    Err(err) => Err(err),
                },
                _ => Err(SyntaxError::new_missing(lexer.value(), FromItem::NAMED)),
            },
            None => Err(
                SyntaxError::new_missing(LexerMatch::new_eof(source.text.as_str()), FromItem::NAMED),
            ),
        }
    }

    proof fn lemma_parse_advances(source: SrcView, index: int) {
    }
}

} // verus!

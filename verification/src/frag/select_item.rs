//! One selected column expression: a name, or the `*` wildcard.

use vstd::prelude::*;

use crate::err::{ErrView, SyntaxError};
use crate::expr::name::NameExpr;
use crate::lexer::{LexKind, Lexer};
use crate::mat::{LexerMatch, MatView};
use crate::parser::{LexerParser, SrcView, SyntaxPattern};
use crate::{Named, NamedEnum};

verus! {

/// The mathematical value of a [`SelectItem`].
pub enum SelectItemView {
    Name(Seq<char>),
    Star,
}

/// One selected column: a named column, or the `*` wildcard.
#[derive(Debug, Clone, PartialEq, Eq)]
pub enum SelectItem {
    NAME(NameExpr),
    STAR,
}

impl View for SelectItem {
    type V = SelectItemView;

    open spec fn view(&self) -> SelectItemView {
        match self {
            SelectItem::NAME(n) => SelectItemView::Name(n@),
            SelectItem::STAR => SelectItemView::Star,
        }
    }
}

impl Named for SelectItem {
    const NAMED: &'static str = "select item";
}

impl NamedEnum for SelectItem {
    /// The display name of this variant.
    fn name(&self) -> (r: &'static str)
        ensures
            match self@ {
                SelectItemView::Name(_) => r@ == "name expression"@,
                SelectItemView::Star => r@ == "STAR"@,
            },
    {
        match self {
            SelectItem::NAME(_) => "name expression",
            SelectItem::STAR => "STAR",
        }
    }
}

impl LexerParser for SelectItem {
    /// Succeeds exactly on a name token (yielding a named column) or a
    /// `*` token (yielding the wildcard) at `index`; any other token, or
    /// the end of input, is a missing select item at that position.
    open spec fn spec_parse(source: SrcView, index: int) -> Result<(SelectItemView, int), ErrView> {
        if 0 <= index < source.items.len() {
            let t = source.items[index];
            if t.kind == LexKind::Name {
                match NameExpr::spec_parse(source, index) {
                    Ok((nm, j)) => Ok((SelectItemView::Name(nm), j)),
                    Err(e) => Err(e),
                }
            } else if t.kind == LexKind::Star {
                Ok((SelectItemView::Star, index + 1))
            } else {
                Err(ErrView::missing(t.mat, "select item"@))
            }
        } else {
            Err(ErrView::missing(MatView::eof(source.text), "select item"@))
        }
    }

    fn parse(source: &SyntaxPattern, index: usize) -> (r: Result<(Self, usize), SyntaxError>) {
        match source.items.get(index) {
            Some(lexer) => match lexer {
                Lexer::NAME(_) => match NameExpr::parse(source, index) {
                    Ok((expr, end_index)) => Ok((SelectItem::NAME(expr), end_index)),
                    Err(err) => Err(err),
                },
                Lexer::STAR(_) => Ok((SelectItem::STAR, index + 1)),
                _ => Err(SyntaxError::new_missing(lexer.value(), SelectItem::NAMED)),
            },
            None => Err(
                SyntaxError::new_missing(
                    LexerMatch::new_eof(source.text.as_str()),
                    SelectItem::NAMED,
                ),
            ),
        }
    }

    proof fn lemma_parse_advances(source: SrcView, index: int) {
    }
}

} // verus!

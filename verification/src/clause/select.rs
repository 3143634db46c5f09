//! The `SELECT` clause: the keyword followed by at least one aliased
//! select item.

use vstd::prelude::*;

use crate::err::{ErrView, SyntaxError};
use crate::expr::alias::{AliasExpr, AliasView};
use crate::expr::items::{lemma_items_advances, spec_items, spec_items_missing, ItemsExpr};
use crate::frag::select_item::{SelectItem, SelectItemView};
use crate::lexer::{LexKind, Lexer};
use crate::mat::{LexerMatch, MatView};
use crate::parser::{LexerParser, SrcView, SyntaxPattern};
use crate::Named;

verus! {

/// The `SELECT` clause: its items-list, holding at least one item.
#[derive(Debug, Clone, PartialEq, Eq)]
pub struct SelectClause {
    pub items: ItemsExpr<AliasExpr<SelectItem>>,
}

impl View for SelectClause {
    type V = Seq<AliasView<SelectItemView>>;

    open spec fn view(&self) -> Seq<AliasView<SelectItemView>> {
        self.items@
    }
}

impl Named for SelectClause {
    const NAMED: &'static str = "select clause";
}

impl LexerParser for SelectClause {
    /// Requires the `SELECT` keyword at `index` and parses the items-list
    /// just after it, which must hold at least one item; an empty list is
    /// a missing-items error at the position right after the keyword, and
    /// any other token (or the end of input) at `index` is a missing
    /// select clause there.
    open spec fn spec_parse(source: SrcView, index: int) -> Result<
        (Seq<AliasView<SelectItemView>>, int),
        ErrView,
    > {
        if 0 <= index < source.items.len() {
            let t = source.items[index];
            if t.kind == LexKind::Select {
                match spec_items::<AliasExpr<SelectItem>>(source, index + 1) {
                    Err(e) => Err(e),
                    Ok((vs, j)) => {
                        if vs.len() < 1 {
                            Err(spec_items_missing(source, index + 1))
                        } else {
                            Ok((vs, j))
                        }
                    },
                }
            } else {
                Err(ErrView::missing(t.mat, "select clause"@))
            }
        } else {
            Err(ErrView::missing(MatView::eof(source.text), "select clause"@))
        }
    }

    fn parse(source: &SyntaxPattern, index: usize) -> (r: Result<(Self, usize), SyntaxError>) {
        match source.items.get(index) {
            Some(lexer) => match lexer {
                Lexer::SELECT(_) => match ItemsExpr::<AliasExpr<SelectItem>>::parse(
                    source,
                    index + 1,
                ) {
                    Ok((items, end_index)) => match items.min_len_check(source, index + 1, 1) {
                        Some(err) => Err(err),
                        None => Ok((SelectClause { items }, end_index)),
                    },
                    Err(err) => Err(err),
                },
                _ => Err(SyntaxError::new_missing(lexer.value(), Self::NAMED)),
            },
            None => Err(
                SyntaxError::new_missing(LexerMatch::new_eof(source.text.as_str()), Self::NAMED),
            ),
        }
    }

    proof fn lemma_parse_advances(source: SrcView, index: int) {
        if 0 <= index < source.items.len() {
            lemma_items_advances::<AliasExpr<SelectItem>>(source, index + 1);
        }
    }
}

} // verus!

//! The `FROM` clause: the keyword followed by at least one aliased
//! from item.

use vstd::prelude::*;

use crate::err::{ErrView, SyntaxError};
use crate::expr::alias::{AliasExpr, AliasView};
use crate::expr::items::{lemma_items_advances, spec_items, spec_items_missing, ItemsExpr};
use crate::frag::from_item::{FromItem, FromItemView};
use crate::lexer::{LexKind, Lexer};
use crate::mat::{LexerMatch, MatView};
use crate::parser::{LexerParser, SrcView, SyntaxPattern};
use crate::Named;

verus! {

/// The `FROM` clause: its items-list, holding at least one item.
#[derive(Debug, Clone, PartialEq, Eq)]
pub struct FromClause {
    pub items: ItemsExpr<AliasExpr<FromItem>>,
}

impl View for FromClause {
    type V = Seq<AliasView<FromItemView>>;

    open spec fn view(&self) -> Seq<AliasView<FromItemView>> {
        self.items@
    }
}

impl Named for FromClause {
    const NAMED: &'static str = "from clause";
}

impl LexerParser for FromClause {
    /// Requires the `FROM` keyword at `index` and parses the items-list
    /// just after it, which must hold at least one item; an empty list is
    /// a missing-items error at the position right after the keyword, and
    /// any other token (or the end of input) at `index` is a missing from
    /// clause there.
    open spec fn spec_parse(source: SrcView, index: int) -> Result<
        (Seq<AliasView<FromItemView>>, int),
        ErrView,
    > {
        if 0 <= index < source.items.len() {
            let t = source.items[index];
            if t.kind == LexKind::From {
                match spec_items::<AliasExpr<FromItem>>(source, index + 1) {
                    Err(e) => Err(e),
                    Ok((vs, j)) => {
                        if vs.len() < 1 {
                            Err(spec_items_missing(source, index + 1))
                        } else {
                            Ok((vs, j))
                        }
                    },
                }
            } else {
                Err(ErrView::missing(t.mat, "from clause"@))
            }
        } else {
            Err(ErrView::missing(MatView::eof(source.text), "from clause"@))
        }
    }

    fn parse(source: &SyntaxPattern, index: usize) -> (r: Result<(Self, usize), SyntaxError>) {
        match source.items.get(index) {
            Some(lexer) => match lexer {
                Lexer::FROM(_) => match ItemsExpr::<AliasExpr<FromItem>>::parse(
                    source,
                    index + 1,
                ) {
                    Ok((items, end_index)) => match items.min_len_check(source, index + 1, 1) {
                        Some(err) => Err(err),
                        None => Ok((FromClause { items }, end_index)),
                    },
                    Err(err) => Err(err),
                },
                _ => Err(SyntaxError::new_missing(lexer.value(), Self::NAMED)),
            },
            None => Err(
                SyntaxError::new_missing(LexerMatch::new_eof(source.text.as_str()), Self::NAMED),
            ),
        }
    }

    proof fn lemma_parse_advances(source: SrcView, index: int) {
        if 0 <= index < source.items.len() {
            lemma_items_advances::<AliasExpr<FromItem>>(source, index + 1);
        }
    }
}

} // verus!

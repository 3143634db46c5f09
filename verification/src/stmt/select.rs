//! The `SELECT` statement: a `SELECT` clause followed by a `FROM` clause.

use vstd::prelude::*;

use crate::clause::from::FromClause;
use crate::clause::select::SelectClause;
use crate::err::{ErrView, SyntaxError};
use crate::expr::alias::AliasView;
use crate::frag::from_item::FromItemView;
use crate::frag::select_item::SelectItemView;
use crate::lexer::{LexKind, Lexer};
use crate::mat::{LexerMatch, MatView};
use crate::parser::{LexerParser, SrcView, SyntaxPattern};
use crate::Named;

verus! {

/// The mathematical value of a [`SelectStmt`]: the items of its two
/// clauses.
pub struct SelectStmtView {
    pub select_clause: Seq<AliasView<SelectItemView>>,
    pub from_clause: Seq<AliasView<FromItemView>>,
}

/// One `SELECT` statement: its `SELECT` clause and the `FROM` clause that
/// always follows it.
#[derive(Debug, Clone, PartialEq, Eq)]
pub struct SelectStmt {
    pub select_clause: SelectClause,
    pub from_clause: FromClause,
}

impl View for SelectStmt {
    type V = SelectStmtView;

    open spec fn view(&self) -> SelectStmtView {
        SelectStmtView { select_clause: self.select_clause@, from_clause: self.from_clause@ }
    }
}

impl Named for SelectStmt {
    const NAMED: &'static str = "select statement";
}

impl LexerParser for SelectStmt {
    /// Parses the `SELECT` clause at `index`; the token just past it must
    /// be the `FROM` keyword, which opens the `FROM` clause, or the parse
    /// fails with a missing from clause at that position.
    open spec fn spec_parse(source: SrcView, index: int) -> Result<(SelectStmtView, int), ErrView> {
        match SelectClause::spec_parse(source, index) {
            Err(e) => Err(e),
            Ok((sc, j)) => {
                if 0 <= j < source.items.len() {
                    if source.items[j].kind == LexKind::From {
                        match FromClause::spec_parse(source, j) {
                            Err(e) => Err(e),
                            Ok((fc, k)) => Ok(
                                (SelectStmtView { select_clause: sc, from_clause: fc }, k),
                            ),
                        }
                    } else {
                        Err(ErrView::missing(source.items[j].mat, "from clause"@))
                    }
                } else {
                    Err(ErrView::missing(MatView::eof(source.text), "from clause"@))
                }
            },
        }
    }

    fn parse(source: &SyntaxPattern, index: usize) -> (r: Result<(Self, usize), SyntaxError>) {
        let (select_clause, select_end_index) = match SelectClause::parse(source, index) {
            Ok(clause) => clause,
            Err(err) => {
                return Err(err);
            },
        };
        let (from_clause, from_end_index) = match source.items.get(select_end_index) {
            Some(lexer) => match lexer {
                Lexer::FROM(_) => match FromClause::parse(source, select_end_index) {
                    Ok(clause) => clause,
                    Err(err) => {
                        return Err(err);
                    },
                },
                _ => {
                    return Err(SyntaxError::new_missing(lexer.value(), "from clause"));
                },
            },
            None => {
                return Err(
                    SyntaxError::new_missing(
                        LexerMatch::new_eof(source.text.as_str()),
                        "from clause",
                    ),
                );
            },
        };
        Ok((SelectStmt { select_clause, from_clause }, from_end_index))
    }

    proof fn lemma_parse_advances(source: SrcView, index: int) {
        SelectClause::lemma_parse_advances(source, index);
        if let Ok((sc, j)) = SelectClause::spec_parse(source, index) {
            if 0 <= j < source.items.len() {
                FromClause::lemma_parse_advances(source, j);
            }
        }
    }
}

} // verus!

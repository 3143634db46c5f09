//! The top-level statement: exactly one statement form exists, the
//! `SELECT` statement.

use vstd::prelude::*;

use crate::err::{ErrView, SyntaxError};
use crate::lexer::{LexKind, Lexer};
use crate::mat::{LexerMatch, MatView};
use crate::parser::{LexerParser, SrcView, SyntaxPattern};
use crate::stmt::select::{SelectStmt, SelectStmtView};
use crate::Named;

verus! {

/// The mathematical value of a [`Stmt`].
pub enum StmtView {
    Select(SelectStmtView),
}

/// The root of the syntax tree: one statement.
#[derive(Debug, Clone, PartialEq, Eq)]
pub enum Stmt {
    SELECT(SelectStmt),
}

impl View for Stmt {
    type V = StmtView;

    open spec fn view(&self) -> StmtView {
        match self {
            Stmt::SELECT(s) => StmtView::Select(s@),
        }
    }
}

impl Named for Stmt {
    const NAMED: &'static str = "statement";
}

impl LexerParser for Stmt {
    /// A statement must start with the `SELECT` keyword and is then the
    /// `SELECT` statement parsed there; any other first token is an
    /// unexpected-token error quoting that token, and an empty input is a
    /// missing statement.
    open spec fn spec_parse(source: SrcView, index: int) -> Result<(StmtView, int), ErrView> {
        if 0 <= index < source.items.len() {
            let t = source.items[index];
            if t.kind == LexKind::Select {
                match SelectStmt::spec_parse(source, index) {
                    Err(e) => Err(e),
                    Ok((v, j)) => Ok((StmtView::Select(v), j)),
                }
            } else {
                Err(ErrView::expected(t.mat))
            }
        } else {
            Err(ErrView::missing(MatView::eof(source.text), "statement"@))
        }
    }

    fn parse(source: &SyntaxPattern, index: usize) -> (r: Result<(Self, usize), SyntaxError>) {
        match source.items.get(index) {
            Some(lexer) => match lexer {
                Lexer::SELECT(_) => match SelectStmt::parse(source, index) {
                    Ok((stmt, end_index)) => Ok((Stmt::SELECT(stmt), end_index)),
                    Err(err) => Err(err),
                },
                _ => Err(SyntaxError::new_excpeted(lexer.value())),
            },
            None => Err(
                SyntaxError::new_missing(LexerMatch::new_eof(source.text.as_str()), Self::NAMED),
            ),
        }
    }

    proof fn lemma_parse_advances(source: SrcView, index: int) {
        SelectStmt::lemma_parse_advances(source, index);
    }
}

} // verus!

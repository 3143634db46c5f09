//! The name production: a single identifier token.

use vstd::prelude::*;

use crate::err::{ErrView, SyntaxError};
use crate::lexer::{LexKind, Lexer};
use crate::mat::{LexerMatch, MatView};
use crate::parser::{LexerParser, SrcView, SyntaxPattern};
use crate::Named;

verus! {

/// An identifier node: the text of one name token.
#[derive(Debug, Clone, PartialEq, Eq)]
pub struct NameExpr {
    pub value: String,
}

impl View for NameExpr {
    type V = Seq<char>;

    open spec fn view(&self) -> Seq<char> {
        self.value@
    }
}

impl Named for NameExpr {
    const NAMED: &'static str = "name expression";
}

impl NameExpr {
    /// Makes a name node carrying `value`.
    pub fn new(value: &str) -> (r: Self)
        ensures
            r@ == value@,
    {
        NameExpr { value: value.to_owned() }
    }
}

impl LexerParser for NameExpr {
    /// Succeeds exactly on a name token at `index`, yielding its text and
    /// the next index; any other token, or the end of input, is a missing
    /// name expression at that position.
    open spec fn spec_parse(source: SrcView, index: int) -> Result<(Seq<char>, int), ErrView> {
        if 0 <= index < source.items.len() {
            let t = source.items[index];
            if t.kind == LexKind::Name {
                Ok((t.mat.slice(), index + 1))
            } else {
                Err(ErrView::missing(t.mat, "name expression"@))
            }
        } else {
            Err(ErrView::missing(MatView::eof(source.text), "name expression"@))
        }
    }

    fn parse(source: &SyntaxPattern, index: usize) -> (r: Result<(Self, usize), SyntaxError>) {
        match source.items.get(index) {
            Some(lexer) => match lexer {
                Lexer::NAME(value) => Ok((NameExpr::new(value.as_str()), index + 1)),
                _ => Err(SyntaxError::new_missing(lexer.value(), Self::NAMED)),
            },
            None => Err(
                SyntaxError::new_missing(LexerMatch::new_eof(source.text.as_str()), Self::NAMED),
            ),
        }
    }

    proof fn lemma_parse_advances(source: SrcView, index: int) {
    }
}

} // verus!

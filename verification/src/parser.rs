//! The uniform production contract: every grammar production parses from a
//! token index and returns the node plus the index just past it, or a
//! structured error; an exact specification-level parser pins the result
//! down for every input.

use vstd::prelude::*;

use crate::err::{ErrView, SyntaxError};
use crate::lexer::{Lexer, LexerView};
use crate::pattern::{lemma_tokens_wf, spec_tokens, views_of, LexerPattern};
use crate::stmt::stmt::{Stmt, StmtView};

verus! {

/// The mathematical value of a [`SyntaxPattern`]: the source text and the
/// views of its tokens.
pub struct SrcView {
    pub text: Seq<char>,
    pub items: Seq<LexerView>,
}

impl SrcView {
    /// Every token's match is well formed.
    pub open spec fn wf(self) -> bool {
        forall|k: int| 0 <= k < self.items.len() ==> (#[trigger] self.items[k]).mat.wf()
    }
}

/// The tokenized source: the original text and its token sequence, read by
/// index and never mutated.
#[derive(Debug, Clone, PartialEq, Eq)]
pub struct SyntaxPattern {
    pub text: String,
    pub items: Vec<Lexer>,
}

impl View for SyntaxPattern {
    type V = SrcView;

    open spec fn view(&self) -> SrcView {
        SrcView { text: self.text@, items: views_of(self.items@) }
    }
}

impl SyntaxPattern {
    /// Pairs the source text with its token sequence.
    pub fn new(text: &str, items: Vec<Lexer>) -> (r: Self)
        ensures
            r@.text == text@,
            r@.items == views_of(items@),
    {
        SyntaxPattern { text: text.to_owned(), items }
    }

    /// The first token, if any.
    pub fn first(&self) -> (r: Option<&Lexer>)
        ensures
            match r {
                Some(l) => self@.items.len() > 0 && l@ == self@.items[0],
                None => self@.items.len() == 0,
            },
    {
        let r = self.items.get(0);
        proof {
            if self.items@.len() > 0 {
                assert(views_of(self.items@)[0] == self.items@[0]@);
            }
        }
        r
    }
}

/// A grammar production: parsing starts at a token index and yields the
/// construct plus the index just past it, or the first error met. The
/// returned value and index are exactly those of the production's
/// specification-level parser, so parsing is a pure function of the
/// tokenized source.
pub trait LexerParser: Sized + View {
    /// What parsing this production returns, for every source and index.
    spec fn spec_parse(source: SrcView, index: int) -> Result<(Self::V, int), ErrView>;

    /// Parses the production at `index`.
    fn parse(source: &SyntaxPattern, index: usize) -> (r: Result<(Self, usize), SyntaxError>)
        requires
            source@.wf(),
        ensures
            match r {
                Ok((node, j)) => Self::spec_parse(source@, index as int) == Ok::<
                    (Self::V, int),
                    ErrView,
                >((node@, j as int)) && index <= j && (j <= source@.items.len() || j == index),
                Err(e) => Self::spec_parse(source@, index as int) == Err::<
                    (Self::V, int),
                    ErrView,
                >(e@),
            },
    ;

    /// The production's law of progress: at an index that holds a token,
    /// success consumes at least one token and stops at or before the
    /// source's end.
    proof fn lemma_parse_advances(source: SrcView, index: int)
        requires
            0 <= index < source.items.len(),
        ensures
            Self::spec_parse(source, index) matches Ok((v, j)) ==> index < j
                <= source.items.len(),
    ;
}

/// What parsing a whole source text returns: the tokenizer's error if
/// one arises, and otherwise the statement parsed from the start of the
/// token sequence.
pub open spec fn spec_parse_statement(text: Seq<char>) -> Result<StmtView, ErrView> {
    match spec_tokens(text, 0) {
        Err(e) => Err(e),
        Ok(ts) => match Stmt::spec_parse(SrcView { text, items: ts }, 0) {
            Err(e) => Err(e),
            Ok((v, j)) => Ok(v),
        },
    }
}

/// Tokenizes `sql` and parses one statement from the start of the token
/// sequence. Tokens standing after the statement are ignored. The result
/// is pinned to [`spec_parse_statement`], a function of the text alone,
/// so parsing the same text twice yields structurally identical results.
pub fn parse_stmt(sql: &str) -> (r: Result<Stmt, SyntaxError>)
    ensures
        match r {
            Ok(stmt) => spec_parse_statement(sql@) == Ok::<StmtView, ErrView>(stmt@),
            Err(e) => spec_parse_statement(sql@) == Err::<StmtView, ErrView>(e@),
        },
{
    match LexerPattern::new(sql).matches() {
        Ok(lexers) => {
            proof {
                lemma_tokens_wf(sql@, 0);
            }
            match Stmt::parse(&SyntaxPattern::new(sql, lexers), 0) {
                Ok((stmt, _)) => Ok(stmt),
                Err(err) => Err(err),
            }
        },
        Err(err) => Err(err),
    }
}

} // verus!

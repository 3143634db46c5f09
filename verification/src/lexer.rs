//! The lexical tokens of the query language.

use vstd::prelude::*;

use crate::err::{ErrView, SyntaxError};
use crate::mat::{LexerMatch, MatView};
use crate::pattern::{spec_tokens, views_of, LexerPattern};
use crate::{Is, NamedEnum, Values};

verus! {

/// The kind of a lexical token.
#[derive(Debug, Clone, Copy, PartialEq, Eq, Structural)]
pub enum LexKind {
    Select,
    From,
    Alias,
    Star,
    Comma,
    Whitespace,
    Name,
}

/// The mathematical value of a [`Lexer`]: its kind and its located match.
pub struct LexerView {
    pub kind: LexKind,
    pub mat: MatView,
}

impl LexerView {
    /// The text the token covers.
    pub open spec fn slice(self) -> Seq<char> {
        self.mat.slice()
    }

    /// Tokens of these kinds carry no information beyond their kind and
    /// position; only a name's text matters to the grammar.
    pub open spec fn is_value_ignores(self) -> bool {
        self.kind == LexKind::Select || self.kind == LexKind::From || self.kind == LexKind::Star
            || self.kind == LexKind::Comma || self.kind == LexKind::Whitespace
    }

    /// Whether the token opens a clause.
    pub open spec fn is_clause(self) -> bool {
        self.kind == LexKind::Select || self.kind == LexKind::From
    }
}

/// One lexical token: a kind together with the match it covers.
#[derive(Debug, Clone, PartialEq, Eq)]
pub enum Lexer {
    SELECT(LexerMatch),
    FROM(LexerMatch),
    ALIAS(LexerMatch),
    STAR(LexerMatch),
    COMMA(LexerMatch),
    WHITESPACE(LexerMatch),
    NAME(LexerMatch),
}

impl View for Lexer {
    type V = LexerView;

    open spec fn view(&self) -> LexerView {
        match self {
            Lexer::SELECT(m) => LexerView { kind: LexKind::Select, mat: m@ },
            Lexer::FROM(m) => LexerView { kind: LexKind::From, mat: m@ },
            Lexer::ALIAS(m) => LexerView { kind: LexKind::Alias, mat: m@ },
            Lexer::STAR(m) => LexerView { kind: LexKind::Star, mat: m@ },
            Lexer::COMMA(m) => LexerView { kind: LexKind::Comma, mat: m@ },
            Lexer::WHITESPACE(m) => LexerView { kind: LexKind::Whitespace, mat: m@ },
            Lexer::NAME(m) => LexerView { kind: LexKind::Name, mat: m@ },
        }
    }
}

impl NamedEnum for Lexer {
    /// The display name of the token's kind.
    fn name(&self) -> (r: &'static str)
        ensures
            r@ == spec_kind_name(self@.kind),
    {
        match self {
            Lexer::SELECT(_) => "SELECT",
            Lexer::FROM(_) => "FROM",
            Lexer::ALIAS(_) => "AS",
            Lexer::STAR(_) => "STAR",
            Lexer::COMMA(_) => "COMMA",
            Lexer::WHITESPACE(_) => "WHITESPACE",
            Lexer::NAME(_) => "NAME",
        }
    }
}

/// The display name of each token kind.
pub open spec fn spec_kind_name(kind: LexKind) -> Seq<char> {
    match kind {
        LexKind::Select => "SELECT"@,
        LexKind::From => "FROM"@,
        LexKind::Alias => "AS"@,
        LexKind::Star => "STAR"@,
        LexKind::Comma => "COMMA"@,
        LexKind::Whitespace => "WHITESPACE"@,
        LexKind::Name => "NAME"@,
    }
}

impl Is for Lexer {
    /// Whether the two tokens are of the same kind, whatever they cover.
    fn is(&self, other: &Self) -> (r: bool)
        ensures
            r == (self@.kind == other@.kind),
    {
        match self {
            Lexer::SELECT(_) => matches!(other, Lexer::SELECT(_)),
            Lexer::FROM(_) => matches!(other, Lexer::FROM(_)),
            Lexer::ALIAS(_) => matches!(other, Lexer::ALIAS(_)),
            Lexer::STAR(_) => matches!(other, Lexer::STAR(_)),
            Lexer::COMMA(_) => matches!(other, Lexer::COMMA(_)),
            Lexer::WHITESPACE(_) => matches!(other, Lexer::WHITESPACE(_)),
            Lexer::NAME(_) => matches!(other, Lexer::NAME(_)),
        }
    }
}

impl Values for Lexer {
    /// One representative token of each kind, covering an empty match.
    fn values() -> (r: Vec<Lexer>)
        ensures
            r@.len() == 7,
            forall|k: int| 0 <= k < 7 ==> (#[trigger] r@[k]@.kind) == spec_kind_order()[k],
    {
        let empty = LexerMatch::new("", 0, 0);
        let mut r: Vec<Lexer> = Vec::new();
        r.push(Lexer::SELECT(empty.clone()));
        r.push(Lexer::FROM(empty.clone()));
        r.push(Lexer::ALIAS(empty.clone()));
        r.push(Lexer::STAR(empty.clone()));
        r.push(Lexer::COMMA(empty.clone()));
        r.push(Lexer::WHITESPACE(empty.clone()));
        r.push(Lexer::NAME(empty));
        r
    }
}

/// The fixed order in which token kinds are tried by the tokenizer.
pub open spec fn spec_kind_order() -> Seq<LexKind> {
    seq![
        LexKind::Select,
        LexKind::From,
        LexKind::Alias,
        LexKind::Star,
        LexKind::Comma,
        LexKind::Whitespace,
        LexKind::Name,
    ]
}

impl Lexer {
    /// Whether the token carries no information beyond kind and position.
    pub fn is_value_ignores(&self) -> (r: bool)
        ensures
            r == self@.is_value_ignores(),
    {
        matches!(
            self,
            Lexer::SELECT(_) | Lexer::FROM(_) | Lexer::STAR(_) | Lexer::COMMA(_)
                | Lexer::WHITESPACE(_)
        )
    }

    /// Whether the token opens a clause.
    pub fn is_clause(&self) -> (r: bool)
        ensures
            r == self@.is_clause(),
    {
        matches!(self, Lexer::SELECT(_) | Lexer::FROM(_))
    }

    /// Tokenizes `sql`: the whole text as a token sequence, whitespace
    /// dropped, or the error that pinpoints the first character where no
    /// pattern matches.
    pub fn parse(sql: &str) -> (r: Result<Vec<Lexer>, SyntaxError>)
        ensures
            match r {
                Ok(lexers) => spec_tokens(sql@, 0) == Ok::<Seq<LexerView>, ErrView>(
                    views_of(lexers@),
                ),
                Err(e) => spec_tokens(sql@, 0) == Err::<Seq<LexerView>, ErrView>(e@),
            },
    {
        LexerPattern::new(sql).matches()
    }

    /// The match the token covers.
    pub fn value(&self) -> (r: LexerMatch)
        ensures
            r@ == self@.mat,
    {
        match self {
            Lexer::SELECT(value) => value,
            Lexer::FROM(value) => value,
            Lexer::ALIAS(value) => value,
            Lexer::STAR(value) => value,
            Lexer::COMMA(value) => value,
            Lexer::WHITESPACE(value) => value,
            Lexer::NAME(value) => value,
        }.clone()
    }
}

} // verus!

//! The tokenizer: repeatedly matches the fixed pattern table against the
//! source text, always taking the longest match and, on a length tie,
//! preferring a fixed token kind over a name.

use vstd::prelude::*;

use crate::chars::{
    is_name_start, is_space_char, kw_as, kw_as_at, kw_from, kw_from_at, kw_select, kw_select_at,
    lemma_name_run, lemma_space_run, name_end, name_run_end, name_start, space_char, space_end,
    space_run_end,
};
use crate::err::{ErrView, SyntaxError};
use crate::lexer::{LexKind, Lexer, LexerView};
use crate::mat::{LexerMatch, MatView};

verus! {

/// The views of a sequence of tokens.
pub open spec fn views_of(items: Seq<Lexer>) -> Seq<LexerView> {
    items.map_values(|l: Lexer| l@)
}

/// The token that the pattern table yields at position `i` of `text`, or
/// `None` when no pattern matches there. Every pattern is tried anchored
/// at `i`; the longest match wins, and when a keyword and a name match
/// the same range, the keyword wins.
pub open spec fn spec_token_at(text: Seq<char>, i: int) -> Option<LexerView> {
    if !(0 <= i < text.len()) {
        None
    } else if text[i] == '*' {
        Some(LexerView { kind: LexKind::Star, mat: MatView { text, start: i, end: i + 1 } })
    } else if text[i] == ',' {
        Some(LexerView { kind: LexKind::Comma, mat: MatView { text, start: i, end: i + 1 } })
    } else if is_space_char(text[i]) {
        Some(
            LexerView {
                kind: LexKind::Whitespace,
                mat: MatView { text, start: i, end: space_run_end(text, i) },
            },
        )
    } else if kw_select_at(text, i) && name_run_end(text, i) <= i + 6 {
        Some(LexerView { kind: LexKind::Select, mat: MatView { text, start: i, end: i + 6 } })
    } else if kw_from_at(text, i) && name_run_end(text, i) <= i + 4 {
        Some(LexerView { kind: LexKind::From, mat: MatView { text, start: i, end: i + 4 } })
    } else if kw_as_at(text, i) && name_run_end(text, i) <= i + 2 {
        Some(LexerView { kind: LexKind::Alias, mat: MatView { text, start: i, end: i + 2 } })
    } else if is_name_start(text[i]) {
        Some(
            LexerView {
                kind: LexKind::Name,
                mat: MatView { text, start: i, end: name_run_end(text, i) },
            },
        )
    } else {
        None
    }
}

/// A token yielded at `i` covers a non-empty, in-range slice that starts
/// at `i`.
pub proof fn lemma_token_at_bounds(text: Seq<char>, i: int)
    requires
        0 <= i < text.len(),
    ensures
        match spec_token_at(text, i) {
            Some(t) => t.mat.text == text && t.mat.start == i && i < t.mat.end <= text.len(),
            None => true,
        },
{
    lemma_name_run(text, i);
    lemma_space_run(text, i);
}

/// The sequence of tokens from position `i` of `text` on, whitespace
/// dropped, or the error that marks the first position where no pattern
/// matches.
pub open spec fn spec_tokens(text: Seq<char>, i: int) -> Result<Seq<LexerView>, ErrView>
    decreases text.len() - i,
    via spec_tokens_decreases
{
    if !(0 <= i < text.len()) {
        Ok(Seq::empty())
    } else {
        match spec_token_at(text, i) {
            None => Err(ErrView::expected(MatView { text, start: i, end: i + 1 })),
            Some(t) => match spec_tokens(text, t.mat.end) {
                Err(e) => Err(e),
                Ok(rest) => Ok(
                    if t.kind == LexKind::Whitespace {
                        rest
                    } else {
                        seq![t] + rest
                    },
                ),
            },
        }
    }
}

#[via_fn]
proof fn spec_tokens_decreases(text: Seq<char>, i: int) {
    if 0 <= i < text.len() {
        lemma_token_at_bounds(text, i);
    }
}

/// Every token of a successful tokenization is well formed: it carries
/// the tokenized text and covers a range inside it.
pub proof fn lemma_tokens_wf(text: Seq<char>, i: int)
    requires
        0 <= i,
    ensures
        spec_tokens(text, i) matches Ok(ts) ==> forall|k: int|
            0 <= k < ts.len() ==> (#[trigger] ts[k]).mat.wf() && ts[k].mat.text == text,
    decreases text.len() - i,
{
    if 0 <= i < text.len() {
        lemma_token_at_bounds(text, i);
        if let Some(t) = spec_token_at(text, i) {
            lemma_tokens_wf(text, t.mat.end);
        }
    }
}

/// The source text paired with the fixed table of lexical patterns.
#[derive(Debug, Clone)]
pub struct LexerPattern {
    pub text: String,
}

impl LexerPattern {
    /// The pattern of the keyword `SELECT`, case-insensitive.
    pub const PATTERN_SELECT: &'static str = "^(?i)SELECT";

    /// The pattern of the keyword `FROM`, case-insensitive.
    pub const PATTERN_FROM: &'static str = "^(?i)FROM";

    /// The pattern of the aliasing keyword `AS`, case-insensitive.
    pub const PATTERN_ALIAS: &'static str = "^(?i)AS";

    /// The pattern of the `*` wildcard.
    pub const PATTERN_STAR: &'static str = "^\\*";

    /// The pattern of the `,` separator.
    pub const PATTERN_COMMA: &'static str = "^,";

    /// The pattern of a whitespace run.
    pub const PATTERN_WHITESPACE: &'static str = "^[\\s]+";

    /// The pattern of a name: a letter followed by word characters.
    pub const PATTERN_NAME: &'static str = "^[A-Za-z][\\w]*";

    /// The pattern table, in the order the patterns are tried.
    pub const PATTERNS: [&'static str; 7] = [
        Self::PATTERN_SELECT,
        Self::PATTERN_FROM,
        Self::PATTERN_ALIAS,
        Self::PATTERN_STAR,
        Self::PATTERN_COMMA,
        Self::PATTERN_WHITESPACE,
        Self::PATTERN_NAME,
    ];

    /// Pairs `text` with the pattern table.
    pub fn new(text: &str) -> (r: Self)
        ensures
            r.text@ == text@,
    {
        LexerPattern { text: text.to_owned() }
    }

    /// Matches the pattern table against `text` at `text_index` and
    /// returns the winning token, or `None` when no pattern matches.
    pub fn match_pattern(&self, text_index: usize) -> (r: Option<Lexer>)
        ensures
            match r {
                Some(lexer) => spec_token_at(self.text@, text_index as int) == Some(lexer@),
                None => spec_token_at(self.text@, text_index as int) is None,
            },
    {
        let text = self.text.as_str();
        let len = text.unicode_len();
        if text_index >= len {
            return None;
        }
        let c = text.get_char(text_index);
        if c == '*' {
            Some(Lexer::STAR(LexerMatch::new(text, text_index, text_index + 1)))
        } else if c == ',' {
            Some(Lexer::COMMA(LexerMatch::new(text, text_index, text_index + 1)))
        } else if space_char(c) {
            proof {
                lemma_space_run(text@, text_index as int);
            }
            let e = space_end(text, text_index);
            Some(Lexer::WHITESPACE(LexerMatch::new(text, text_index, e)))
        } else {
            proof {
                lemma_name_run(text@, text_index as int);
            }
            let ne = name_end(text, text_index);
            if kw_select(text, text_index) && ne <= text_index + 6 {
                Some(Lexer::SELECT(LexerMatch::new(text, text_index, text_index + 6)))
            } else if kw_from(text, text_index) && ne <= text_index + 4 {
                Some(Lexer::FROM(LexerMatch::new(text, text_index, text_index + 4)))
            } else if kw_as(text, text_index) && ne <= text_index + 2 {
                Some(Lexer::ALIAS(LexerMatch::new(text, text_index, text_index + 2)))
            } else if name_start(c) {
                Some(Lexer::NAME(LexerMatch::new(text, text_index, ne)))
            } else {
                None
            }
        }
    }

    /// Tokenizes `text` from `text_index` on: repeatedly takes the winning
    /// match, drops whitespace tokens, and stops at the text's end, or at
    /// the first position where no pattern matches.
    pub fn match_text(&self, text_index: usize) -> (r: Result<Vec<Lexer>, SyntaxError>)
        ensures
            match r {
                Ok(lexers) => spec_tokens(self.text@, text_index as int) == Ok::<
                    Seq<LexerView>,
                    ErrView,
                >(views_of(lexers@)),
                Err(e) => spec_tokens(self.text@, text_index as int) == Err::<
                    Seq<LexerView>,
                    ErrView,
                >(e@),
            },
    {
        let text = self.text.as_str();
        let len = text.unicode_len();
        let mut lexers: Vec<Lexer> = Vec::new();
        let mut i = text_index;
        while i < len
            invariant
                len == self.text@.len(),
                text@ == self.text@,
                spec_tokens(self.text@, text_index as int) == (match spec_tokens(
                    self.text@,
                    i as int,
                ) {
                    Ok(rest) => Ok::<Seq<LexerView>, ErrView>(views_of(lexers@) + rest),
                    Err(e) => Err::<Seq<LexerView>, ErrView>(e),
                }),
            decreases len - i,
        {
            proof {
                lemma_token_at_bounds(self.text@, i as int);
            }
            match self.match_pattern(i) {
                Some(lexer) => {
                    let ghost prev = lexers@;
                    let e = lexer.value().end();
                    if !matches!(lexer, Lexer::WHITESPACE(_)) {
                        lexers.push(lexer);
                    }
                    proof {
                        assert(views_of(lexers@) =~= if lexer@.kind == LexKind::Whitespace {
                            views_of(prev)
                        } else {
                            views_of(prev) + seq![lexer@]
                        });
                        assert(forall|rest: Seq<LexerView>|
                            views_of(prev) + (seq![lexer@] + rest) =~= (views_of(prev) + seq![
                                lexer@,
                            ]) + rest);
                    }
                    i = e;
                },
                None => {
                    return Err(SyntaxError::new_excpeted(LexerMatch::new(text, i, i + 1)));
                },
            }
        }
        proof {
            assert(views_of(lexers@) + Seq::<LexerView>::empty() =~= views_of(lexers@));
        }
        Ok(lexers)
    }

    /// Tokenizes the whole text.
    pub fn matches(&self) -> (r: Result<Vec<Lexer>, SyntaxError>)
        ensures
            match r {
                Ok(lexers) => spec_tokens(self.text@, 0) == Ok::<Seq<LexerView>, ErrView>(
                    views_of(lexers@),
                ),
                Err(e) => spec_tokens(self.text@, 0) == Err::<Seq<LexerView>, ErrView>(e@),
            },
    {
        self.match_text(0)
    }
}

} // verus!

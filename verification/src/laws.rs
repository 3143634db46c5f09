//! The stated laws of the library: what holds of tokenization and parsing
//! on every input, proved once and for all.

use vstd::prelude::*;

use crate::chars::{
    is_name_char, is_name_start, is_space_char, kw_as_at, kw_from_at, kw_select_at,
    lemma_name_run, lemma_name_run_covers, lemma_name_run_exact, lemma_space_run,
    lemma_space_run_exact, name_run_end, space_run_end,
};
use crate::err::ErrView;
use crate::clause::from::FromClause;
use crate::clause::select::SelectClause;
use crate::expr::items::spec_items;
use crate::lexer::{LexKind, LexerView};
use crate::mat::MatView;
use crate::parser::{LexerParser, SrcView};
use crate::pattern::{lemma_token_at_bounds, spec_token_at, spec_tokens};

verus! {

// ---------------------------------------------------------------------
// Longest-match precedence and the keyword tie-break
// ---------------------------------------------------------------------
/// Whether one of the seven lexical patterns matches `text` at `i` with
/// length `len`. The keywords and the punctuation marks match one fixed
/// length each; a whitespace or name match may stop anywhere inside its
/// run, so every legal decomposition of a text is covered.
pub open spec fn class_match_at(text: Seq<char>, i: int, kind: LexKind, len: int) -> bool {
    match kind {
        LexKind::Select => kw_select_at(text, i) && len == 6,
        LexKind::From => kw_from_at(text, i) && len == 4,
        LexKind::Alias => kw_as_at(text, i) && len == 2,
        LexKind::Star => 0 <= i < text.len() && text[i] == '*' && len == 1,
        LexKind::Comma => 0 <= i < text.len() && text[i] == ',' && len == 1,
        LexKind::Whitespace => 0 <= i < text.len() && is_space_char(text[i]) && 1 <= len && i + len
            <= space_run_end(text, i),
        LexKind::Name => 0 <= i < text.len() && is_name_start(text[i]) && 1 <= len && i + len
            <= name_run_end(text, i),
    }
}

/// The characters of a keyword match are all name characters, so the name
/// run from the keyword's start reaches at least to its end.
proof fn lemma_keyword_in_name_run(text: Seq<char>, i: int)
    ensures
        kw_select_at(text, i) ==> name_run_end(text, i) >= i + 6,
        kw_from_at(text, i) ==> name_run_end(text, i) >= i + 4,
        kw_as_at(text, i) ==> name_run_end(text, i) >= i + 2,
{
    if kw_select_at(text, i) {
        lemma_name_run_covers(text, i, i + 6);
    }
    if kw_from_at(text, i) {
        lemma_name_run_covers(text, i, i + 4);
    }
    if kw_as_at(text, i) {
        lemma_name_run_covers(text, i, i + 2);
    }
}

/// Longest-match precedence: wherever some lexical pattern matches with
/// length `len`, the tokenizer yields a token, and that token's match is
/// at least `len` characters long. In particular a longer name always
/// outranks a shorter keyword match at the same position.
pub proof fn lemma_token_at_longest(text: Seq<char>, i: int, kind: LexKind, len: int)
    requires
        class_match_at(text, i, kind, len),
    ensures
        spec_token_at(text, i) matches Some(t) && t.mat.end - t.mat.start >= len,
{
    lemma_name_run(text, i);
    lemma_space_run(text, i);
    lemma_keyword_in_name_run(text, i);
}

/// The keyword tie-break: when a keyword matches and the name run from
/// the same position is no longer than the keyword, the tokenizer yields
/// the keyword kind, never a name of equal length.
pub proof fn lemma_keyword_tie_break(text: Seq<char>, i: int)
    ensures
        kw_select_at(text, i) && name_run_end(text, i) <= i + 6 ==> spec_token_at(text, i)
            == Some(
            LexerView { kind: LexKind::Select, mat: MatView { text, start: i, end: i + 6 } },
        ),
        kw_from_at(text, i) && name_run_end(text, i) <= i + 4 ==> spec_token_at(text, i) == Some(
            LexerView { kind: LexKind::From, mat: MatView { text, start: i, end: i + 4 } },
        ),
        kw_as_at(text, i) && name_run_end(text, i) <= i + 2 ==> spec_token_at(text, i) == Some(
            LexerView { kind: LexKind::Alias, mat: MatView { text, start: i, end: i + 2 } },
        ),
{
}

// ---------------------------------------------------------------------
// Totality of tokenization
// ---------------------------------------------------------------------
/// Whether `cuts` decomposes the whole of `text` into pieces that each
/// match one lexical pattern: the boundaries run in order from the text's
/// start to its end, and one of the seven patterns matches each piece. A
/// text with such a decomposition is composed solely of the legal
/// lexical classes.
pub open spec fn is_split(text: Seq<char>, cuts: Seq<int>) -> bool {
    &&& cuts.len() >= 1
    &&& cuts[0] == 0
    &&& cuts.last() == text.len()
    &&& forall|m: int| 0 <= m < cuts.len() - 1 ==> #[trigger] cuts[m] < cuts[m + 1]
    &&& forall|m: int|
        #![trigger cuts[m]]
        0 <= m < cuts.len() - 1 ==> exists|kind: LexKind|
            #[trigger] class_match_at(text, cuts[m], kind, cuts[m + 1] - cuts[m])
}

/// The boundaries of a decomposition are sorted.
proof fn lemma_cuts_sorted(text: Seq<char>, cuts: Seq<int>, m1: int, m2: int)
    requires
        is_split(text, cuts),
        0 <= m1 <= m2 < cuts.len(),
    ensures
        cuts[m1] <= cuts[m2],
    decreases m2 - m1,
{
    if m1 < m2 {
        lemma_cuts_sorted(text, cuts, m1 + 1, m2);
    }
}

/// When a name run starts at a boundary of a decomposition, the run's end
/// is itself a boundary: the pieces that the run covers are names and
/// keywords, which are made of name characters and so cannot reach past
/// the run's end, and no piece can start at the run's end with a name
/// character, so some piece ends exactly there.
proof fn lemma_name_boundary(text: Seq<char>, cuts: Seq<int>, m: int, e: int)
    requires
        is_split(text, cuts),
        0 <= m < cuts.len() - 1,
        0 <= cuts[m] < e,
        e == name_run_end(text, cuts[m]),
        forall|k: int| cuts[m] <= k < e ==> is_name_char(#[trigger] text[k]),
        e == text.len() || !is_name_char(text[e]),
    ensures
        exists|m2: int| 0 <= m2 < cuts.len() && cuts[m2] == e,
    decreases cuts.len() - m,
{
    let c = cuts[m];
    let b = cuts[m + 1];
    let kind = choose|kind: LexKind| #[trigger] class_match_at(text, c, kind, b - c);
    lemma_keyword_in_name_run(text, c);
    lemma_name_run(text, c);
    // the piece at `c` is made of name characters, so it ends at or
    // before the run's end
    assert(b <= e);
    if b == e {
        assert(cuts[m + 1] == e);
    } else {
        lemma_cuts_sorted(text, cuts, m + 1, cuts.len() - 1);
        assert(m + 1 < cuts.len() - 1);
        lemma_name_run_exact(text, b, e);
        lemma_name_boundary(text, cuts, m + 1, e);
    }
}

/// The whitespace analogue of [`lemma_name_boundary`]: the pieces that a
/// whitespace run covers are whitespace runs themselves, so the run's end
/// is a boundary.
proof fn lemma_space_boundary(text: Seq<char>, cuts: Seq<int>, m: int, e: int)
    requires
        is_split(text, cuts),
        0 <= m < cuts.len() - 1,
        0 <= cuts[m] < e,
        e == space_run_end(text, cuts[m]),
        forall|k: int| cuts[m] <= k < e ==> is_space_char(#[trigger] text[k]),
        e == text.len() || !is_space_char(text[e]),
    ensures
        exists|m2: int| 0 <= m2 < cuts.len() && cuts[m2] == e,
    decreases cuts.len() - m,
{
    let c = cuts[m];
    let b = cuts[m + 1];
    let kind = choose|kind: LexKind| #[trigger] class_match_at(text, c, kind, b - c);
    lemma_space_run(text, c);
    assert(b <= e);
    if b == e {
        assert(cuts[m + 1] == e);
    } else {
        lemma_cuts_sorted(text, cuts, m + 1, cuts.len() - 1);
        assert(m + 1 < cuts.len() - 1);
        lemma_space_run_exact(text, b, e);
        lemma_space_boundary(text, cuts, m + 1, e);
    }
}

/// One greedy step stays on the decomposition: at any boundary short of
/// the end, the tokenizer yields a token, and the position just past that
/// token is again a boundary.
proof fn lemma_greedy_step(text: Seq<char>, cuts: Seq<int>, m: int)
    requires
        is_split(text, cuts),
        0 <= m < cuts.len() - 1,
        0 <= cuts[m],
    ensures
        spec_token_at(text, cuts[m]) matches Some(t) && exists|m2: int|
            0 <= m2 < cuts.len() && cuts[m2] == t.mat.end,
{
    let c = cuts[m];
    let b = cuts[m + 1];
    let kind = choose|kind: LexKind| #[trigger] class_match_at(text, c, kind, b - c);
    lemma_token_at_longest(text, c, kind, b - c);
    lemma_token_at_bounds(text, c);
    lemma_name_run(text, c);
    lemma_space_run(text, c);
    lemma_keyword_in_name_run(text, c);
    let t = spec_token_at(text, c).unwrap();
    if text[c] == '*' || text[c] == ',' {
        assert(cuts[m + 1] == t.mat.end);
    } else if is_space_char(text[c]) {
        lemma_space_boundary(text, cuts, m, space_run_end(text, c));
    } else {
        assert(t.mat.end == name_run_end(text, c));
        lemma_name_boundary(text, cuts, m, name_run_end(text, c));
    }
}

/// From any boundary of the decomposition on, tokenization succeeds.
proof fn lemma_tokens_ok_from(text: Seq<char>, cuts: Seq<int>, m: int)
    requires
        is_split(text, cuts),
        0 <= m < cuts.len(),
    ensures
        spec_tokens(text, cuts[m]) is Ok,
    decreases cuts.len() - m,
{
    lemma_cuts_sorted(text, cuts, 0, m);
    lemma_cuts_sorted(text, cuts, m, cuts.len() - 1);
    let c = cuts[m];
    if m == cuts.len() - 1 {
        assert(c == text.len());
    } else {
        lemma_greedy_step(text, cuts, m);
        let t = spec_token_at(text, c).unwrap();
        let m2 = choose|m2: int| 0 <= m2 < cuts.len() && cuts[m2] == t.mat.end;
        lemma_token_at_bounds(text, c);
        // the next boundary lies strictly further on, so the walk ends
        if m2 <= m {
            lemma_cuts_sorted(text, cuts, m2, m);
            assert(false);
        }
        lemma_tokens_ok_from(text, cuts, m2);
    }
}

/// The raw token sequence from position `i` on: as [`spec_tokens`], but
/// keeping the whitespace tokens, so that the tokens cover the text
/// without gaps.
pub open spec fn spec_raw_tokens(text: Seq<char>, i: int) -> Result<Seq<LexerView>, ErrView>
    decreases text.len() - i,
    via spec_raw_tokens_decreases
{
    if !(0 <= i < text.len()) {
        Ok(Seq::empty())
    } else {
        match spec_token_at(text, i) {
            None => Err(ErrView::expected(MatView { text, start: i, end: i + 1 })),
            Some(t) => match spec_raw_tokens(text, t.mat.end) {
                Err(e) => Err(e),
                Ok(rest) => Ok(seq![t] + rest),
            },
        }
    }
}

#[via_fn]
proof fn spec_raw_tokens_decreases(text: Seq<char>, i: int) {
    if 0 <= i < text.len() {
        lemma_token_at_bounds(text, i);
    }
}

/// The raw and the emitted tokenization succeed on the same texts, and
/// fail with the same error.
pub proof fn lemma_raw_tokens_agree(text: Seq<char>, i: int)
    requires
        0 <= i,
    ensures
        spec_raw_tokens(text, i) is Ok <==> spec_tokens(text, i) is Ok,
        spec_raw_tokens(text, i) matches Err(e) ==> spec_tokens(text, i) == Err::<
            Seq<LexerView>,
            ErrView,
        >(e),
    decreases text.len() - i,
{
    if 0 <= i < text.len() {
        lemma_token_at_bounds(text, i);
        if let Some(t) = spec_token_at(text, i) {
            lemma_raw_tokens_agree(text, t.mat.end);
        }
    }
}

/// The concatenation of the slices that a token sequence covers.
pub open spec fn concat_slices(ts: Seq<LexerView>) -> Seq<char>
    decreases ts.len(),
{
    if ts.len() == 0 {
        Seq::empty()
    } else {
        ts[0].slice() + concat_slices(ts.drop_first())
    }
}

/// The raw tokens of a successful tokenization tile the text: the
/// concatenation of all matched substrings, whitespace included,
/// reconstructs the tokenized part of the text exactly.
pub proof fn lemma_tokens_reconstruct(text: Seq<char>, i: int)
    requires
        0 <= i <= text.len(),
    ensures
        spec_raw_tokens(text, i) matches Ok(ts) ==> concat_slices(ts) == text.subrange(
            i,
            text.len() as int,
        ),
    decreases text.len() - i,
{
    if i == text.len() {
        if let Ok(ts) = spec_raw_tokens(text, i) {
            assert(concat_slices(ts) =~= text.subrange(i, text.len() as int));
        }
    } else {
        lemma_token_at_bounds(text, i);
        if let Some(t) = spec_token_at(text, i) {
            let e = t.mat.end;
            lemma_tokens_reconstruct(text, e);
            if let Ok(rest) = spec_raw_tokens(text, e) {
                let ts = seq![t] + rest;
                assert(ts.drop_first() =~= rest);
                assert(concat_slices(ts) =~= text.subrange(i, text.len() as int));
            }
        }
    }
}

/// Totality of tokenization: a text that decomposes into the seven legal
/// lexical classes tokenizes without error, and the matched substrings of
/// its raw tokens, whitespace included, concatenate back to the whole
/// text.
pub proof fn lemma_tokenize_total(text: Seq<char>, cuts: Seq<int>)
    requires
        is_split(text, cuts),
    ensures
        spec_tokens(text, 0) is Ok,
        spec_raw_tokens(text, 0) matches Ok(ts) && concat_slices(ts) == text,
{
    lemma_tokens_ok_from(text, cuts, 0);
    lemma_raw_tokens_agree(text, 0);
    lemma_tokens_reconstruct(text, 0);
    if let Ok(ts) = spec_raw_tokens(text, 0) {
        assert(text.subrange(0, text.len() as int) =~= text);
    }
}

/// A failed tokenization pinpoints the first offending character: the
/// error's range is the single character at the first position, at or
/// after `i`, where no pattern matches.
pub proof fn lemma_tokenize_err_char(text: Seq<char>, i: int)
    requires
        0 <= i,
    ensures
        spec_tokens(text, i) matches Err(e) ==> i <= e.start < text.len() && spec_token_at(
            text,
            e.start,
        ) is None && e == ErrView::expected(
            MatView { text, start: e.start, end: e.start + 1 },
        ),
    decreases text.len() - i,
{
    if 0 <= i < text.len() {
        lemma_token_at_bounds(text, i);
        if let Some(t) = spec_token_at(text, i) {
            lemma_tokenize_err_char(text, t.mat.end);
        }
    }
}

// ---------------------------------------------------------------------
// Minimum-item enforcement
// ---------------------------------------------------------------------
/// A clause that parses successfully holds at least one item: an empty
/// items-list is rejected by both clause productions.
pub proof fn lemma_clause_items_nonempty(source: SrcView, index: int)
    ensures
        SelectClause::spec_parse(source, index) matches Ok((vs, j)) ==> vs.len() >= 1,
        FromClause::spec_parse(source, index) matches Ok((vs, j)) ==> vs.len() >= 1,
{
}

/// A successful items-list parse never stops just before a comma: every
/// comma that follows an item is consumed, and the grammar then demands a
/// further item after it, so a trailing comma is never left standing.
pub proof fn lemma_items_stop_not_comma<T: LexerParser>(source: SrcView, index: int)
    requires
        0 <= index,
    ensures
        spec_items::<T>(source, index) matches Ok((vs, j)) ==> (0 <= j < source.items.len()
            ==> source.items[j].kind != LexKind::Comma),
    decreases source.items.len() - index,
{
    if 0 <= index < source.items.len() {
        T::lemma_parse_advances(source, index);
        if let Ok((item, j)) = T::spec_parse(source, index) {
            if 0 <= j < source.items.len() && source.items[j].kind == LexKind::Comma {
                lemma_items_stop_not_comma::<T>(source, j + 1);
            }
        }
    }
}

} // verus!

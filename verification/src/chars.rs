//! Character classes and keyword shapes of the lexical grammar.
//!
//! A name starts with an ASCII letter and continues with ASCII letters,
//! digits and underscores. Whitespace is the ASCII whitespace set. The
//! keywords `SELECT`, `FROM` and `AS` match case-insensitively.

use vstd::prelude::*;

verus! {

/// Whether `c` may start a name: an ASCII letter.
pub open spec fn is_name_start(c: char) -> bool {
    ('A' <= c && c <= 'Z') || ('a' <= c && c <= 'z')
}

/// Whether `c` may continue a name: an ASCII letter, digit or underscore.
pub open spec fn is_name_char(c: char) -> bool {
    is_name_start(c) || ('0' <= c && c <= '9') || c == '_'
}

/// Whether `c` is whitespace: space, tab, line feed, vertical tab,
/// form feed or carriage return.
pub open spec fn is_space_char(c: char) -> bool {
    c == ' ' || c == '\t' || c == '\n' || c == '\u{b}' || c == '\u{c}' || c == '\r'
}

/// Whether `c` is the letter `lo` in either case (`up` is its upper case).
pub open spec fn is_letter(c: char, lo: char, up: char) -> bool {
    c == lo || c == up
}

/// Whether the keyword `SELECT` matches `text` at `i`, case-insensitively.
pub open spec fn kw_select_at(text: Seq<char>, i: int) -> bool {
    &&& 0 <= i
    &&& i + 6 <= text.len()
    &&& is_letter(text[i], 's', 'S')
    &&& is_letter(text[i + 1], 'e', 'E')
    &&& is_letter(text[i + 2], 'l', 'L')
    &&& is_letter(text[i + 3], 'e', 'E')
    &&& is_letter(text[i + 4], 'c', 'C')
    &&& is_letter(text[i + 5], 't', 'T')
}

/// Whether the keyword `FROM` matches `text` at `i`, case-insensitively.
pub open spec fn kw_from_at(text: Seq<char>, i: int) -> bool {
    &&& 0 <= i
    &&& i + 4 <= text.len()
    &&& is_letter(text[i], 'f', 'F')
    &&& is_letter(text[i + 1], 'r', 'R')
    &&& is_letter(text[i + 2], 'o', 'O')
    &&& is_letter(text[i + 3], 'm', 'M')
}

/// Whether the keyword `AS` matches `text` at `i`, case-insensitively.
pub open spec fn kw_as_at(text: Seq<char>, i: int) -> bool {
    &&& 0 <= i
    &&& i + 2 <= text.len()
    &&& is_letter(text[i], 'a', 'A')
    &&& is_letter(text[i + 1], 's', 'S')
}

/// The end of the run of name characters that starts at `i`: the first
/// position at or after `i` that is out of range or holds no name character.
pub open spec fn name_run_end(text: Seq<char>, i: int) -> int
    decreases text.len() - i,
{
    if i < 0 || i >= text.len() || !is_name_char(text[i]) {
        i
    } else {
        name_run_end(text, i + 1)
    }
}

/// The end of the run of whitespace characters that starts at `i`.
pub open spec fn space_run_end(text: Seq<char>, i: int) -> int
    decreases text.len() - i,
{
    if i < 0 || i >= text.len() || !is_space_char(text[i]) {
        i
    } else {
        space_run_end(text, i + 1)
    }
}

/// A name-character run reaches from `i` to its end: every character
/// inside is a name character, and the run stops only at the text's end
/// or just before a character of another class.
pub proof fn lemma_name_run(text: Seq<char>, i: int)
    requires
        0 <= i <= text.len(),
    ensures
        i <= name_run_end(text, i) <= text.len(),
        forall|k: int|
            i <= k < name_run_end(text, i) ==> is_name_char(#[trigger] text[k]),
        name_run_end(text, i) < text.len() ==> !is_name_char(text[name_run_end(text, i)]),
    decreases text.len() - i,
{
    if i < text.len() && is_name_char(text[i]) {
        lemma_name_run(text, i + 1);
    }
}

/// The whitespace analogue of [`lemma_name_run`].
pub proof fn lemma_space_run(text: Seq<char>, i: int)
    requires
        0 <= i <= text.len(),
    ensures
        i <= space_run_end(text, i) <= text.len(),
        forall|k: int|
            i <= k < space_run_end(text, i) ==> is_space_char(#[trigger] text[k]),
        space_run_end(text, i) < text.len() ==> !is_space_char(text[space_run_end(text, i)]),
    decreases text.len() - i,
{
    if i < text.len() && is_space_char(text[i]) {
        lemma_space_run(text, i + 1);
    }
}

/// A run of name characters reaches at least to `j` when every character
/// before `j` is a name character.
pub proof fn lemma_name_run_covers(text: Seq<char>, i: int, j: int)
    requires
        0 <= i <= j <= text.len(),
        forall|k: int| i <= k < j ==> is_name_char(#[trigger] text[k]),
    ensures
        name_run_end(text, i) >= j,
    decreases j - i,
{
    lemma_name_run(text, i);
    if i < j {
        assert(is_name_char(text[i]));
        lemma_name_run_covers(text, i + 1, j);
    }
}

/// A run of name characters ends exactly at `j` when every character
/// before `j` is a name character and `j` is the text's end or holds a
/// character of another class.
pub proof fn lemma_name_run_exact(text: Seq<char>, i: int, j: int)
    requires
        0 <= i <= j <= text.len(),
        forall|k: int| i <= k < j ==> is_name_char(#[trigger] text[k]),
        j == text.len() || !is_name_char(text[j]),
    ensures
        name_run_end(text, i) == j,
    decreases j - i,
{
    lemma_name_run(text, i);
    if i < j {
        assert(is_name_char(text[i]));
        lemma_name_run_exact(text, i + 1, j);
    }
}

/// The whitespace analogue of [`lemma_name_run_exact`].
pub proof fn lemma_space_run_exact(text: Seq<char>, i: int, j: int)
    requires
        0 <= i <= j <= text.len(),
        forall|k: int| i <= k < j ==> is_space_char(#[trigger] text[k]),
        j == text.len() || !is_space_char(text[j]),
    ensures
        space_run_end(text, i) == j,
    decreases j - i,
{
    lemma_space_run(text, i);
    if i < j {
        assert(is_space_char(text[i]));
        lemma_space_run_exact(text, i + 1, j);
    }
}

/// Whether `c` may start a name.
pub fn name_start(c: char) -> (r: bool)
    ensures
        r == is_name_start(c),
{
    ('A' <= c && c <= 'Z') || ('a' <= c && c <= 'z')
}

/// Whether `c` may continue a name.
pub fn name_char(c: char) -> (r: bool)
    ensures
        r == is_name_char(c),
{
    name_start(c) || ('0' <= c && c <= '9') || c == '_'
}

/// Whether `c` is whitespace.
pub fn space_char(c: char) -> (r: bool)
    ensures
        r == is_space_char(c),
{
    c == ' ' || c == '\t' || c == '\n' || c == '\u{b}' || c == '\u{c}' || c == '\r'
}

/// The end of the run of name characters starting at `from`.
pub fn name_end(text: &str, from: usize) -> (r: usize)
    requires
        from <= text@.len(),
    ensures
        r as int == name_run_end(text@, from as int),
{
    let len = text.unicode_len();
    let mut i = from;
    while i < len && name_char(text.get_char(i))
        invariant
            from <= i <= len,
            len == text@.len(),
            name_run_end(text@, from as int) == name_run_end(text@, i as int),
        decreases len - i,
    {
        i = i + 1;
    }
    i
}

/// The end of the run of whitespace characters starting at `from`.
pub fn space_end(text: &str, from: usize) -> (r: usize)
    requires
        from <= text@.len(),
    ensures
        r as int == space_run_end(text@, from as int),
{
    let len = text.unicode_len();
    let mut i = from;
    while i < len && space_char(text.get_char(i))
        invariant
            from <= i <= len,
            len == text@.len(),
            space_run_end(text@, from as int) == space_run_end(text@, i as int),
        decreases len - i,
    {
        i = i + 1;
    }
    i
}

/// Whether the letter at position `i` of `text` is `lo` or `up`.
fn letter_at(text: &str, i: usize, lo: char, up: char) -> (r: bool)
    requires
        i < text@.len(),
    ensures
        r == is_letter(text@[i as int], lo, up),
{
    let c = text.get_char(i);
    c == lo || c == up
}

/// Whether the keyword `SELECT` matches `text` at `i`, case-insensitively.
pub fn kw_select(text: &str, i: usize) -> (r: bool)
    ensures
        r == kw_select_at(text@, i as int),
{
    let len = text.unicode_len();
    i <= usize::MAX - 6 && i + 6 <= len && letter_at(text, i, 's', 'S') && letter_at(
        text,
        i + 1,
        'e',
        'E',
    ) && letter_at(text, i + 2, 'l', 'L') && letter_at(text, i + 3, 'e', 'E') && letter_at(
        text,
        i + 4,
        'c',
        'C',
    ) && letter_at(text, i + 5, 't', 'T')
}

/// Whether the keyword `FROM` matches `text` at `i`, case-insensitively.
pub fn kw_from(text: &str, i: usize) -> (r: bool)
    ensures
        r == kw_from_at(text@, i as int),
{
    let len = text.unicode_len();
    i <= usize::MAX - 4 && i + 4 <= len && letter_at(text, i, 'f', 'F') && letter_at(
        text,
        i + 1,
        'r',
        'R',
    ) && letter_at(text, i + 2, 'o', 'O') && letter_at(text, i + 3, 'm', 'M')
}

/// Whether the keyword `AS` matches `text` at `i`, case-insensitively.
pub fn kw_as(text: &str, i: usize) -> (r: bool)
    ensures
        r == kw_as_at(text@, i as int),
{
    let len = text.unicode_len();
    i <= usize::MAX - 2 && i + 2 <= len && letter_at(text, i, 'a', 'A') && letter_at(
        text,
        i + 1,
        's',
        'S',
    )
}

} // verus!

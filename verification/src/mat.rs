//! A located match: a copy of the source text together with the character
//! range that a token (or a diagnostic) covers.

use vstd::prelude::*;

verus! {

/// The mathematical value of a [`LexerMatch`]: the text as a character
/// sequence and the two bounds of the covered range.
pub struct MatView {
    pub text: Seq<char>,
    pub start: int,
    pub end: int,
}

impl MatView {
    /// A well-formed match covers a range that lies inside its text.
    pub open spec fn wf(self) -> bool {
        0 <= self.start <= self.end <= self.text.len()
    }

    /// The covered slice of the text.
    pub open spec fn slice(self) -> Seq<char> {
        self.text.subrange(self.start, self.end)
    }

    /// The match that marks the end of `text`: its last character, or an
    /// empty range at the start of an empty text.
    pub open spec fn eof(text: Seq<char>) -> MatView {
        MatView {
            text,
            start: if text.len() > 0 {
                text.len() - 1
            } else {
                0
            },
            end: text.len() as int,
        }
    }
}

/// A substring of the source, identified by a copy of the source text and
/// a character range into it. Positions count characters; on ASCII input
/// they equal byte offsets.
#[derive(Debug, PartialEq, Eq)]
pub struct LexerMatch {
    pub text: String,
    pub start: usize,
    pub end: usize,
}

impl Clone for LexerMatch {
    /// A clone covers the same range of an equal text.
    fn clone(&self) -> (r: Self)
        ensures
            r@ == self@,
    {
        LexerMatch { text: self.text.clone(), start: self.start, end: self.end }
    }
}

impl View for LexerMatch {
    type V = MatView;

    open spec fn view(&self) -> MatView {
        MatView { text: self.text@, start: self.start as int, end: self.end as int }
    }
}

impl LexerMatch {
    /// Makes a match of `text` covering `start..end`.
    pub fn new(text: &str, start: usize, end: usize) -> (r: Self)
        ensures
            r@ == (MatView { text: text@, start: start as int, end: end as int }),
    {
        LexerMatch { text: text.to_owned(), start, end }
    }

    /// Makes a match that covers the whole of `text`.
    pub fn new_full_match(text: &str) -> (r: Self)
        ensures
            r@ == (MatView { text: text@, start: 0, end: text@.len() as int }),
            r@.wf(),
    {
        let n = text.unicode_len();
        LexerMatch { text: text.to_owned(), start: 0, end: n }
    }

    /// Makes the end-of-input marker of `text`: a match of its last
    /// character, or of an empty range when `text` is empty.
    pub fn new_eof(text: &str) -> (r: Self)
        ensures
            r@ == MatView::eof(text@),
            r@.wf(),
    {
        let n = text.unicode_len();
        let start = if n > 0 {
            n - 1
        } else {
            0
        };
        LexerMatch { text: text.to_owned(), start, end: n }
    }

    /// The start of the covered range.
    pub fn start(&self) -> (r: usize)
        ensures
            r as int == self@.start,
    {
        self.start
    }

    /// The end of the covered range.
    pub fn end(&self) -> (r: usize)
        ensures
            r as int == self@.end,
    {
        self.end
    }

    /// The covered range.
    pub fn range(&self) -> (r: core::ops::Range<usize>)
        ensures
            r.start as int == self@.start,
            r.end as int == self@.end,
    {
        self.start..self.end
    }

    /// The whole source text.
    pub fn text(&self) -> (r: &str)
        ensures
            r@ == self@.text,
    {
        self.text.as_str()
    }

    /// The covered slice of the source text.
    pub fn as_str(&self) -> (r: &str)
        requires
            self@.wf(),
        ensures
            r@ == self@.slice(),
    {
        self.text.as_str().substring_char(self.start, self.end)
    }
}

} // verus!

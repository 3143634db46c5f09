//! Structured syntax errors: a cause phrase, the offending range of the
//! source, and a rendering that points at the error's line and column.

use vstd::prelude::*;

use crate::mat::{LexerMatch, MatView};

verus! {

/// The mathematical value of a [`SyntaxError`].
pub struct ErrView {
    pub cause: Seq<char>,
    pub text: Seq<char>,
    pub start: int,
    pub end: int,
}

impl ErrView {
    /// The error that reports a missing construct `name` at `mat`.
    pub open spec fn missing(mat: MatView, name: Seq<char>) -> ErrView {
        ErrView { cause: "missing "@ + name, text: mat.text, start: mat.start, end: mat.end }
    }

    /// The error that reports an unexpected construct at `mat`.
    pub open spec fn expected(mat: MatView) -> ErrView {
        ErrView {
            cause: "expected "@ + mat.slice(),
            text: mat.text,
            start: mat.start,
            end: mat.end,
        }
    }
}

/// A syntax error: a short cause phrase and the offending character range
/// of the source text.
#[derive(Debug, Clone, PartialEq, Eq)]
pub struct SyntaxError {
    pub cause: String,
    pub text: String,
    pub start: usize,
    pub end: usize,
}

impl View for SyntaxError {
    type V = ErrView;

    open spec fn view(&self) -> ErrView {
        ErrView {
            cause: self.cause@,
            text: self.text@,
            start: self.start as int,
            end: self.end as int,
        }
    }
}

/// The row and column reached after scanning `text` from `i` up to (not
/// including) `upto`, starting from `row` and `col`. A line break is
/// `"\r\n"` or `"\n"`; it moves to the start of the next row, and any
/// other character widens the column by one.
pub open spec fn spec_point(text: Seq<char>, i: int, upto: int, row: int, col: int) -> (int, int)
    decreases upto - i,
{
    if !(0 <= i < upto && upto <= text.len()) {
        (row, col)
    } else if text[i] == '\r' && i + 1 < upto && text[i + 1] == '\n' {
        spec_point(text, i + 2, upto, row + 1, 0)
    } else if text[i] == '\n' {
        spec_point(text, i + 1, upto, row + 1, 0)
    } else {
        spec_point(text, i + 1, upto, row, col + 1)
    }
}

/// The row and column of position `start` in `text`: the scan stops at the
/// error's own offset (or at the text's end, whichever comes first).
pub open spec fn spec_point_of(text: Seq<char>, start: int) -> (int, int) {
    spec_point(text, 0, if start <= text.len() { start } else { text.len() as int }, 0, 0)
}

/// The decimal digit character of `d`.
pub open spec fn spec_digit(d: int) -> char {
    if d == 0 {
        '0'
    } else if d == 1 {
        '1'
    } else if d == 2 {
        '2'
    } else if d == 3 {
        '3'
    } else if d == 4 {
        '4'
    } else if d == 5 {
        '5'
    } else if d == 6 {
        '6'
    } else if d == 7 {
        '7'
    } else if d == 8 {
        '8'
    } else {
        '9'
    }
}

/// The decimal rendering of `n`, most significant digit first.
pub open spec fn spec_dec(n: int) -> Seq<char>
    decreases n,
{
    if n < 10 {
        seq![spec_digit(n)]
    } else {
        spec_dec(n / 10) + seq![spec_digit(n % 10)]
    }
}

/// The rendered message of an error: its cause followed by the row and
/// column of its start position.
pub open spec fn spec_msg(e: ErrView) -> Seq<char> {
    let (row, col) = spec_point_of(e.text, e.start);
    "SyntaxError: "@ + e.cause + " ["@ + spec_dec(row) + ", "@ + spec_dec(col) + "]"@
}

/// The single decimal digit `d` as a string.
fn digit_str(d: usize) -> (r: &'static str)
    requires
        d < 10,
    ensures
        r@ == seq![spec_digit(d as int)],
{
    let r = match d {
        0 => "0",
        1 => "1",
        2 => "2",
        3 => "3",
        4 => "4",
        5 => "5",
        6 => "6",
        7 => "7",
        8 => "8",
        _ => "9",
    };
    proof {
        reveal_strlit("0");
        reveal_strlit("1");
        reveal_strlit("2");
        reveal_strlit("3");
        reveal_strlit("4");
        reveal_strlit("5");
        reveal_strlit("6");
        reveal_strlit("7");
        reveal_strlit("8");
        reveal_strlit("9");
        assert(r@ =~= seq![spec_digit(d as int)]);
    }
    r
}

/// The decimal rendering of `n`.
fn dec_string(n: usize) -> (r: String)
    ensures
        r@ == spec_dec(n as int),
    decreases n,
{
    if n < 10 {
        String::from_str(digit_str(n))
    } else {
        proof {
            assert(n / 10 < n && n / 10 >= 1) by (nonlinear_arith)
                requires
                    n >= 10,
            ;
        }
        let mut s = dec_string(n / 10);
        s.append(digit_str(n % 10));
        s
    }
}

impl SyntaxError {
    /// Makes an error with the given cause at `mat`.
    pub fn new_lexer(mat: LexerMatch, cause: &str) -> (r: SyntaxError)
        ensures
            r@ == (ErrView { cause: cause@, text: mat@.text, start: mat@.start, end: mat@.end }),
    {
        SyntaxError { cause: cause.to_owned(), text: mat.text, start: mat.start, end: mat.end }
    }

    /// Makes the error that reports an unexpected construct: its cause
    /// quotes the text that `mat` covers.
    pub fn new_excpeted(mat: LexerMatch) -> (r: SyntaxError)
        requires
            mat@.wf(),
        ensures
            r@ == ErrView::expected(mat@),
    {
        let mut cause = String::from_str("expected ");
        cause.append(mat.as_str());
        SyntaxError { cause, text: mat.text, start: mat.start, end: mat.end }
    }

    /// Makes the error that reports a missing construct called `name` at
    /// `mat`.
    pub fn new_missing(mat: LexerMatch, name: &str) -> (r: SyntaxError)
        ensures
            r@ == ErrView::missing(mat@, name@),
    {
        let mut cause = String::from_str("missing ");
        cause.append(name);
        SyntaxError { cause, text: mat.text, start: mat.start, end: mat.end }
    }

    /// The row and column of the error's start position in its text.
    fn point(&self) -> (r: (usize, usize))
        ensures
            (r.0 as int, r.1 as int) == spec_point_of(self@.text, self@.start),
    {
        let text = self.text.as_str();
        let len = text.unicode_len();
        let upto = if self.start <= len {
            self.start
        } else {
            len
        };
        let mut i: usize = 0;
        let mut row: usize = 0;
        let mut col: usize = 0;
        while i < upto
            invariant
                0 <= i <= upto <= text@.len(),
                row + col <= i,
                spec_point_of(self@.text, self@.start) == spec_point(
                    text@,
                    i as int,
                    upto as int,
                    row as int,
                    col as int,
                ),
            decreases upto - i,
        {
            let c = text.get_char(i);
            if c == '\r' && i + 1 < upto && text.get_char(i + 1) == '\n' {
                row = row + 1;
                col = 0;
                i = i + 2;
            } else if c == '\n' {
                row = row + 1;
                col = 0;
                i = i + 1;
            } else {
                col = col + 1;
                i = i + 1;
            }
        }
        (row, col)
    }

    /// Renders the error as `SyntaxError: <cause> [<row>, <col>]`, with
    /// 0-based row and column recomputed from the source text up to the
    /// error's start position.
    pub fn msg(&self) -> (r: String)
        ensures
            r@ == spec_msg(self@),
    {
        let (row, col) = self.point();
        let mut s = String::from_str("SyntaxError: ");
        s.append(self.cause.as_str());
        s.append(" [");
        s.append(dec_string(row).as_str());
        s.append(", ");
        s.append(dec_string(col).as_str());
        s.append("]");
        proof {
            assert(s@ =~= spec_msg(self@));
        }
        s
    }
}

} // verus!

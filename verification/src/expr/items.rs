//! The items-list production: comma-separated repetitions of an inner
//! production. A list parsed at the end of input is empty; after every
//! comma at least one further item is required; whether the list as a
//! whole may be empty is decided by the calling production.

use vstd::prelude::*;

use crate::err::{ErrView, SyntaxError};
use crate::lexer::{LexKind, Lexer};
use crate::mat::{LexerMatch, MatView};
use crate::parser::{LexerParser, SrcView, SyntaxPattern};
use crate::Named;

verus! {

/// An ordered list of parsed items.
#[derive(Debug, Clone, PartialEq, Eq)]
pub struct ItemsExpr<T> {
    pub items: Vec<T>,
}

impl<T: View> View for ItemsExpr<T> {
    type V = Seq<T::V>;

    open spec fn view(&self) -> Seq<T::V> {
        self.items@.map_values(|t: T| t@)
    }
}

impl<T> Named for ItemsExpr<T> {
    const NAMED: &'static str = "items";
}

/// The error that reports missing items at token `index` of `source`, or
/// at the end of input when no token stands there.
pub open spec fn spec_items_missing(source: SrcView, index: int) -> ErrView {
    if 0 <= index < source.items.len() {
        ErrView::missing(source.items[index].mat, "items"@)
    } else {
        ErrView::missing(MatView::eof(source.text), "items"@)
    }
}

impl<T: View> ItemsExpr<T> {
    /// Makes a list of the given items.
    pub fn new(items: Vec<T>) -> (r: Self)
        ensures
            r@ == items@.map_values(|t: T| t@),
    {
        ItemsExpr { items }
    }

    /// Checks that the list holds at least `min` items; when it does not,
    /// reports missing items at token `index` of `source`.
    pub fn min_len_check(&self, source: &SyntaxPattern, index: usize, min: usize) -> (r: Option<
        SyntaxError,
    >)
        ensures
            match r {
                None => self.items@.len() >= min,
                Some(e) => self.items@.len() < min && e@ == spec_items_missing(
                    source@,
                    index as int,
                ),
            },
    {
        if self.items.len() < min {
            match source.items.get(index) {
                Some(lexer) => Some(SyntaxError::new_missing(lexer.value(), Self::NAMED)),
                None => Some(
                    SyntaxError::new_missing(
                        LexerMatch::new_eof(source.text.as_str()),
                        Self::NAMED,
                    ),
                ),
            }
        } else {
            None
        }
    }
}

/// What parsing an items-list of the production `T` returns: an empty
/// list at the end of input; otherwise one item, and, when a comma
/// follows it, the rest-list after the comma, which must not be empty on
/// pain of a missing-items error.
pub open spec fn spec_items<T: LexerParser>(source: SrcView, index: int) -> Result<
    (Seq<T::V>, int),
    ErrView,
>
    decreases source.items.len() - index,
    via spec_items_decreases::<T>
{
    if !(0 <= index < source.items.len()) {
        Ok((Seq::empty(), index))
    } else {
        match T::spec_parse(source, index) {
            Err(e) => Err(e),
            Ok((item, j)) => {
                if 0 <= j < source.items.len() && source.items[j].kind == LexKind::Comma {
                    match spec_items::<T>(source, j + 1) {
                        Err(e) => Err(e),
                        Ok((rest, k)) => {
                            if rest.len() < 1 {
                                Err(spec_items_missing(source, j + 1))
                            } else {
                                Ok((seq![item] + rest, k))
                            }
                        },
                    }
                } else {
                    Ok((seq![item], j))
                }
            },
        }
    }
}

#[via_fn]
proof fn spec_items_decreases<T: LexerParser>(source: SrcView, index: int) {
    if 0 <= index < source.items.len() {
        T::lemma_parse_advances(source, index);
    }
}

/// An items-list never moves backwards, and consumes at least one token
/// whenever it yields an item.
pub proof fn lemma_items_advances<T: LexerParser>(source: SrcView, index: int)
    requires
        0 <= index,
    ensures
        spec_items::<T>(source, index) matches Ok((vs, j)) ==> index <= j && (vs.len() >= 1
            ==> index < j <= source.items.len()),
    decreases source.items.len() - index,
{
    if 0 <= index < source.items.len() {
        T::lemma_parse_advances(source, index);
        if let Ok((item, j)) = T::spec_parse(source, index) {
            if 0 <= j < source.items.len() && source.items[j].kind == LexKind::Comma {
                lemma_items_advances::<T>(source, j + 1);
            }
        }
    }
}

impl<T: LexerParser> LexerParser for ItemsExpr<T> {
    /// See [`spec_items`].
    open spec fn spec_parse(source: SrcView, index: int) -> Result<(Seq<T::V>, int), ErrView> {
        spec_items::<T>(source, index)
    }

    fn parse(source: &SyntaxPattern, index: usize) -> (r: Result<(Self, usize), SyntaxError>)
        decreases source@.items.len() - index,
    {
        match source.items.get(index) {
            Some(_) => match T::parse(source, index) {
                Ok((item, item_end_index)) => match source.items.get(item_end_index) {
                    Some(lexer) => match lexer {
                        Lexer::COMMA(_) => match Self::parse(source, item_end_index + 1) {
                            Ok((next_items, next_end_index)) => {
                                match next_items.min_len_check(source, item_end_index + 1, 1) {
                                    Some(err) => Err(err),
                                    None => {
                                        let ghost gitem = item@;
                                        let ghost grest = next_items@;
                                        let mut mut_items = next_items;
                                        mut_items.items.insert(0, item);
                                        proof {
                                            assert(mut_items@ =~= seq![gitem] + grest);
                                        }
                                        Ok((mut_items, next_end_index))
                                    },
                                }
                            },
                            Err(err) => Err(err),
                        },
                        _ => {
                            let ghost gitem = item@;
                            let mut single_items = Vec::new();
                            single_items.push(item);
                            let single = Self::new(single_items);
                            proof {
                                assert(single@ =~= seq![gitem]);
                            }
                            Ok((single, item_end_index))
                        },
                    },
                    None => {
                        let ghost gitem = item@;
                        let mut single_items = Vec::new();
                        single_items.push(item);
                        let single = Self::new(single_items);
                        proof {
                            assert(single@ =~= seq![gitem]);
                        }
                        Ok((single, item_end_index))
                    },
                },
                Err(err) => Err(err),
            },
            None => {
                let empty = Self::new(Vec::new());
                proof {
                    assert(empty@ =~= Seq::empty());
                }
                Ok((empty, index))
            },
        }
    }

    proof fn lemma_parse_advances(source: SrcView, index: int) {
        lemma_items_advances::<T>(source, index);
    }
}

} // verus!

//! From the service's sentinels to explicit absence.
//!
//! The service writes an empty string where it has nothing to say. Nothing of
//! that reaches the decoded values: an empty string becomes `None`, and a
//! context of which only one half is given is an error.

use vstd::prelude::*;
use crate::error::{outcome, DecodeError, DecodeErrorView};
use crate::line::{MatchContext, MatchContextView};

verus! {

/// An optional text without the sentinel: absent where it was absent or
/// empty, else unchanged.
pub open spec fn normalized_text(raw: Option<Seq<char>>) -> Option<Seq<char>> {
    match raw {
        Some(text) => if text.len() == 0 {
            None
        } else {
            Some(text)
        },
        None => None,
    }
}

/// A context and its symbol without the sentinel: absent where both are
/// empty, an error where exactly one is, else both as they were given.
pub open spec fn normalized_context(context: Seq<char>, symbol: Seq<char>) -> Result<
    Option<MatchContextView>,
    DecodeErrorView,
> {
    if context.len() == 0 && symbol.len() == 0 {
        Ok(None)
    } else if context.len() == 0 || symbol.len() == 0 {
        Err(DecodeErrorView::InvalidValue)
    } else {
        Ok(Some(MatchContextView { context, symbol }))
    }
}

/// Turns an absent or empty text into `None` and hands any other text back
/// as it came.
pub fn normalize_optional_string(raw: Option<String>) -> (text: Option<String>)
    ensures
        text.deep_view() == normalized_text(raw.deep_view()),
        text is Some ==> text == raw,
{
    match raw {
        Some(text) => if text.as_str().is_empty() {
            None
        } else {
            Some(text)
        },
        None => None,
    }
}

/// Pairs a context with its symbol. Two empty strings mean that the service
/// named no context; two filled ones are the context. One empty string beside
/// a filled one is turned down with [`DecodeError::InvalidValue`].
pub fn normalize_context(raw_context: String, raw_symbol: String) -> (context: Result<
    Option<MatchContext>,
    DecodeError,
>)
    ensures
        outcome(context) == normalized_context(raw_context@, raw_symbol@),
        context matches Ok(Some(pair)) ==> pair.context == raw_context && pair.symbol
            == raw_symbol,
{
    let no_context = raw_context.as_str().is_empty();
    let no_symbol = raw_symbol.as_str().is_empty();
    if no_context && no_symbol {
        Ok(None)
    } else if no_context || no_symbol {
        Err(DecodeError::InvalidValue)
    } else {
        Ok(Some(MatchContext { context: raw_context, symbol: raw_symbol }))
    }
}

/// Normalizing a second time changes nothing.
pub proof fn normalized_text_is_idempotent(raw: Option<Seq<char>>)
    ensures
        normalized_text(normalized_text(raw)) == normalized_text(raw),
{
}

/// A normalized text is absent or not empty.
pub proof fn normalized_text_is_never_empty(raw: Option<Seq<char>>)
    ensures
        normalized_text(raw) matches Some(text) ==> text.len() > 0,
{
}

/// A context that comes out of the normalizer has both fields filled.
pub proof fn normalized_context_is_filled(context: Seq<char>, symbol: Seq<char>)
    ensures
        normalized_context(context, symbol) matches Ok(Some(pair)) ==> pair.filled(),
{
}

} // verus!

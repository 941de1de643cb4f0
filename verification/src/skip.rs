//! Walking backwards over events, past tokens of chosen kinds.
use vstd::prelude::*;
use crate::event::{Event, Token};

verus! {

/// Step back from `i` while the token there satisfies `pred`; stop at the
/// first other token, or at the front of the stream.
pub open spec fn spec_skip_back(events: Seq<Event>, i: int, pred: spec_fn(Token) -> bool) -> int
    decreases i,
    when i >= 0
{
    if i <= 0 {
        0
    } else if pred(events[i].token_type) {
        spec_skip_back(events, i - 1, pred)
    } else {
        i
    }
}

/// Tokens a blank line may sit behind inside a list item: more blank
/// line endings and indentation.
pub open spec fn is_blank_or_space(t: Token) -> bool {
    t == Token::BlankLineEnding || t == Token::SpaceOrTab
}

/// The list item wrapper itself.
pub open spec fn is_list_item(t: Token) -> bool {
    t == Token::ListItem
}

/// A list item's prefix and its indentation.
pub open spec fn is_prefix_or_space(t: Token) -> bool {
    t == Token::ListItemPrefix || t == Token::SpaceOrTab
}

/// What may stand between a list item's content and its `Exit`.
pub open spec fn is_item_gap(t: Token) -> bool {
    t == Token::BlankLineEnding || t == Token::LineEnding || t == Token::SpaceOrTab || t
        == Token::BlockQuotePrefix
}

pub fn skip_back_blank_or_space(events: &[Event], index: usize) -> (r: usize)
    requires
        index < events@.len(),
    ensures
        r <= index,
        r == spec_skip_back(events@, index as int, |t: Token| is_blank_or_space(t)),
{
    let mut i: usize = index;
    while i > 0 && matches!(
        events[i].token_type,
        Token::BlankLineEnding | Token::SpaceOrTab
    )
        invariant
            i <= index < events@.len(),
            spec_skip_back(events@, index as int, |t: Token| is_blank_or_space(t))
                == spec_skip_back(events@, i as int, |t: Token| is_blank_or_space(t)),
        decreases i,
    {
        i -= 1;
    }
    i
}

pub fn skip_back_list_item(events: &[Event], index: usize) -> (r: usize)
    requires
        index < events@.len(),
    ensures
        r <= index,
        r == spec_skip_back(events@, index as int, |t: Token| is_list_item(t)),
{
    let mut i: usize = index;
    while i > 0 && matches!(events[i].token_type, Token::ListItem)
        invariant
            i <= index < events@.len(),
            spec_skip_back(events@, index as int, |t: Token| is_list_item(t)) == spec_skip_back(
                events@,
                i as int,
                |t: Token| is_list_item(t),
            ),
        decreases i,
    {
        i -= 1;
    }
    i
}

pub fn skip_back_prefix_or_space(events: &[Event], index: usize) -> (r: usize)
    requires
        index < events@.len(),
    ensures
        r <= index,
        r == spec_skip_back(events@, index as int, |t: Token| is_prefix_or_space(t)),
{
    let mut i: usize = index;
    while i > 0 && matches!(
        events[i].token_type,
        Token::ListItemPrefix | Token::SpaceOrTab
    )
        invariant
            i <= index < events@.len(),
            spec_skip_back(events@, index as int, |t: Token| is_prefix_or_space(t))
                == spec_skip_back(events@, i as int, |t: Token| is_prefix_or_space(t)),
        decreases i,
    {
        i -= 1;
    }
    i
}

pub fn skip_back_item_gap(events: &[Event], index: usize) -> (r: usize)
    requires
        index < events@.len(),
    ensures
        r <= index,
        r == spec_skip_back(events@, index as int, |t: Token| is_item_gap(t)),
{
    let mut i: usize = index;
    while i > 0 && matches!(
        events[i].token_type,
        Token::BlankLineEnding | Token::LineEnding | Token::SpaceOrTab | Token::BlockQuotePrefix
    )
        invariant
            i <= index < events@.len(),
            spec_skip_back(events@, index as int, |t: Token| is_item_gap(t)) == spec_skip_back(
                events@,
                i as int,
                |t: Token| is_item_gap(t),
            ),
        decreases i,
    {
        i -= 1;
    }
    i
}

} // verus!

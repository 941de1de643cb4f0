//! Spans over the code-point array, and turning them back into text.
use vstd::prelude::*;
use crate::event::{Code, Event, EventType, Token};
use crate::strutil::push_char;

verus! {

/// A half-open range of code points in the source.
#[derive(Clone, Copy, PartialEq, Eq, Structural, Debug)]
pub struct Span {
    pub start_index: usize,
    pub end_index: usize,
}

/// The characters one code point serializes to. Virtual spaces and the
/// end of the input serialize to nothing.
pub open spec fn code_chars(c: Code) -> Seq<char> {
    match c {
        Code::Char(ch) => seq![ch],
        Code::VirtualSpace => Seq::empty(),
        Code::CarriageReturn => seq!['\r'],
        Code::LineFeed => seq!['\n'],
        Code::CarriageReturnLineFeed => seq!['\r', '\n'],
        Code::Eof => Seq::empty(),
    }
}

/// The text of the code points in `[from, to)`.
pub open spec fn serialized(codes: Seq<Code>, from: int, to: int) -> Seq<char>
    decreases to - from,
    when from <= to
{
    if from >= to {
        Seq::empty()
    } else {
        code_chars(codes[from]) + serialized(codes, from + 1, to)
    }
}

/// Serialize the code points in `[start, end)` into a string.
pub fn serialize(codes: &[Code], start: usize, end: usize) -> (r: String)
    requires
        start <= end,
        end <= codes@.len(),
    ensures
        r@ == serialized(codes@, start as int, end as int),
{
    let mut out = String::new();
    let mut i: usize = start;
    while i < end
        invariant
            start <= i <= end,
            end <= codes@.len(),
            serialized(codes@, start as int, end as int) == out@ + serialized(
                codes@,
                i as int,
                end as int,
            ),
        decreases end - i,
    {
        let ghost pre_out = out@;
        let c = codes[i];
        match c {
            Code::Char(ch) => push_char(&mut out, ch),
            Code::VirtualSpace => {},
            Code::CarriageReturn => push_char(&mut out, '\r'),
            Code::LineFeed => push_char(&mut out, '\n'),
            Code::CarriageReturnLineFeed => out.append("\r\n"),
            Code::Eof => {},
        }
        proof {
            reveal_strlit("\r\n");
            assert("\r\n"@ =~= seq!['\r', '\n']);
            assert(out@ =~= pre_out + code_chars(codes@[i as int]));
            assert(pre_out + code_chars(codes@[i as int]) + serialized(codes@, i + 1, end as int)
                =~= pre_out + (code_chars(codes@[i as int]) + serialized(
                codes@,
                i + 1,
                end as int,
            )));
        }
        i += 1;
    }
    proof {
        assert(out@ + Seq::<char>::empty() =~= out@);
    }
    out
}

/// The index of the nearest `Enter` of the given kind strictly before `i`.
pub open spec fn find_enter_before(events: Seq<Event>, tok: Token, i: int) -> Option<int>
    decreases i,
    when i >= 0
{
    if i <= 0 {
        None
    } else if events[i - 1].event_type == EventType::Enter && events[i - 1].token_type == tok {
        Some(i - 1)
    } else {
        find_enter_before(events, tok, i - 1)
    }
}

/// The span of the construct an `Exit` at `i` closes: from the matching
/// `Enter`'s offset to the `Exit`'s own offset.
pub open spec fn spec_span_of(events: Seq<Event>, i: int) -> Option<Span> {
    match find_enter_before(events, events[i].token_type, i) {
        Some(j) => Some(
            (Span { start_index: events[j].index, end_index: events[i].index }),
        ),
        None => None,
    }
}

/// Find the span matching the `Exit` event at `index`, scanning backwards
/// for its `Enter`. `None` when no matching `Enter` precedes it.
pub fn from_exit_event(events: &[Event], index: usize) -> (r: Option<Span>)
    requires
        index < events@.len(),
    ensures
        r == spec_span_of(events@, index as int),
{
    let tok = events[index].token_type;
    let mut i: usize = index;
    while i > 0
        invariant
            i <= index < events@.len(),
            tok == events@[index as int].token_type,
            find_enter_before(events@, tok, index as int) == find_enter_before(
                events@,
                tok,
                i as int,
            ),
        decreases i,
    {
        if matches!(events[i - 1].event_type, EventType::Enter) && events[i - 1].token_type == tok {
            return Some(Span { start_index: events[i - 1].index, end_index: events[index].index });
        }
        i -= 1;
    }
    None
}

} // verus!

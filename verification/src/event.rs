//! The input model: events and code points as an upstream tokenizer hands
//! them over, plus the line-ending and option types shared with callers.
use vstd::prelude::*;

verus! {

/// Whether an event opens or closes a construct.
#[derive(Clone, Copy, PartialEq, Eq, Structural, Debug)]
pub enum EventType {
    Enter,
    Exit,
}

/// The kinds of tokens the compiler reacts to.
///
/// The set is closed for the compiler: kinds it does not handle are
/// no-ops, so a richer tokenizer vocabulary degrades gracefully.
#[derive(Clone, Copy, PartialEq, Eq, Structural, Debug)]
pub enum Token {
    AutolinkEmail,
    AutolinkProtocol,
    BlankLineEnding,
    BlockQuote,
    BlockQuotePrefix,
    CharacterEscapeValue,
    CharacterReferenceMarker,
    CharacterReferenceMarkerHexadecimal,
    CharacterReferenceMarkerNumeric,
    CharacterReferenceMarkerSemi,
    CharacterReferenceValue,
    CodeFenced,
    CodeFencedFence,
    CodeFencedFenceInfo,
    CodeFencedFenceMeta,
    CodeFencedFenceSequence,
    CodeFlowChunk,
    CodeIndented,
    CodeText,
    CodeTextData,
    CodeTextSequence,
    Data,
    Definition,
    DefinitionDestinationString,
    DefinitionLabelString,
    DefinitionMarker,
    DefinitionTitleString,
    Emphasis,
    HardBreakEscape,
    HardBreakTrailing,
    HeadingAtx,
    HeadingAtxSequence,
    HeadingAtxText,
    HeadingSetextText,
    HeadingSetextUnderline,
    HtmlFlow,
    HtmlFlowData,
    HtmlText,
    HtmlTextData,
    Image,
    Label,
    LabelEnd,
    LabelImage,
    LabelLink,
    LabelMarker,
    LabelText,
    LineEnding,
    Link,
    ListItem,
    ListItemMarker,
    ListItemPrefix,
    ListItemValue,
    ListOrdered,
    ListUnordered,
    Paragraph,
    Reference,
    ReferenceString,
    Resource,
    ResourceDestinationString,
    ResourceTitleString,
    SpaceOrTab,
    Strong,
    ThematicBreak,
}

/// One code point of the source, as classified by the tokenizer.
#[derive(Clone, Copy, PartialEq, Eq, Debug)]
pub enum Code {
    /// An ordinary character.
    Char(char),
    /// A phantom space from tab expansion; serialization drops it.
    VirtualSpace,
    /// A `\r` line ending.
    CarriageReturn,
    /// A `\n` line ending.
    LineFeed,
    /// A `\r\n` line ending.
    CarriageReturnLineFeed,
    /// The end of the input.
    Eof,
}

/// One tokenizer event: a phase, a token kind, and the code-point offset
/// at which the event fires.
#[derive(Clone, Copy, PartialEq, Eq, Structural, Debug)]
pub struct Event {
    pub event_type: EventType,
    pub token_type: Token,
    /// Offset into the code-point array where this event takes place.
    pub index: usize,
}

/// The style of line ending written between blocks.
#[derive(Clone, Copy, PartialEq, Eq, Structural, Debug)]
pub enum LineEnding {
    CarriageReturn,
    LineFeed,
    CarriageReturnLineFeed,
}

impl LineEnding {
    /// The characters this line ending writes.
    pub open spec fn eol(self) -> Seq<char> {
        match self {
            LineEnding::CarriageReturn => seq!['\r'],
            LineEnding::LineFeed => seq!['\n'],
            LineEnding::CarriageReturnLineFeed => seq!['\r', '\n'],
        }
    }

    /// The line ending a given line-ending code point denotes; every
    /// non-line-ending code falls back to a line feed.
    pub open spec fn spec_from_code(code: Code) -> LineEnding {
        match code {
            Code::CarriageReturnLineFeed => LineEnding::CarriageReturnLineFeed,
            Code::CarriageReturn => LineEnding::CarriageReturn,
            _ => LineEnding::LineFeed,
        }
    }

    pub fn as_str(&self) -> (r: &'static str)
        ensures
            r@ == self.eol(),
    {
        match self {
            LineEnding::CarriageReturn => {
                proof {
                    reveal_strlit("\r");
                    assert("\r"@ =~= seq!['\r']);
                }
                "\r"
            },
            LineEnding::LineFeed => {
                proof {
                    reveal_strlit("\n");
                    assert("\n"@ =~= seq!['\n']);
                }
                "\n"
            },
            LineEnding::CarriageReturnLineFeed => {
                proof {
                    reveal_strlit("\r\n");
                    assert("\r\n"@ =~= seq!['\r', '\n']);
                }
                "\r\n"
            },
        }
    }

    pub fn from_code(code: Code) -> (r: LineEnding)
        ensures
            r == LineEnding::spec_from_code(code),
    {
        match code {
            Code::CarriageReturnLineFeed => LineEnding::CarriageReturnLineFeed,
            Code::CarriageReturn => LineEnding::CarriageReturn,
            _ => LineEnding::LineFeed,
        }
    }
}

/// Configuration for one compilation.
#[derive(Clone, Copy, PartialEq, Eq, Structural, Debug)]
pub struct Options {
    /// Pass raw HTML in the source through to the output.
    pub allow_dangerous_html: bool,
    /// Keep `href` and `src` URLs whatever their scheme.
    pub allow_dangerous_protocol: bool,
    /// The line ending used when the input itself contains none.
    pub default_line_ending: LineEnding,
}

} // verus!

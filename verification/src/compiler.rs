//! Turn events into a string of HTML.
//!
//! The compiler runs two passes over the event stream: the first collects
//! link reference definitions (they may stand after the references that
//! use them), the second emits HTML for everything else, skipping the
//! definition ranges found before. Handlers write into a stack of
//! buffers; inline constructs push a buffer, build their content there,
//! and splice it back after post-processing.
use vstd::prelude::*;
use crate::charref::{decode_named, decode_numeric, spec_decode_named, spec_decode_numeric};
use crate::encode::{encode, encoded};
use crate::event::{Code, Event, EventType, LineEnding, Options, Token};
use crate::ident::{normalize_identifier, normalized};
use crate::sanitize::{protocols_view, sanitize_uri, spec_sanitize};
use crate::skip::{
    is_blank_or_space, is_item_gap, is_list_item, is_prefix_or_space, skip_back_blank_or_space,
    skip_back_item_gap, skip_back_list_item, skip_back_prefix_or_space, spec_skip_back,
};
use crate::span::{from_exit_event, serialize, serialized, spec_span_of, Span};
use crate::strutil::{append_dec, parse_u32, spec_dec, spec_parse_u32, str_eq};

verus! {

/// Which kind of character reference a marker announced.
#[derive(Clone, Copy, PartialEq, Eq, Structural, Debug)]
pub enum CharacterReferenceKind {
    Named,
    Decimal,
    Hexadecimal,
}

/// A link, image or definition while it is being assembled.
#[derive(Debug)]
pub struct Media {
    /// An image rather than a link or definition.
    pub image: bool,
    /// The raw text between the brackets, kept as the fallback identifier.
    pub label_id: Option<String>,
    /// The rendered content between the brackets.
    pub label: Option<String>,
    /// The raw text of an explicit reference, or a definition's label.
    pub reference_id: Option<String>,
    /// The destination URL, not yet sanitized.
    pub destination: Option<String>,
    /// The title.
    pub title: Option<String>,
}

/// The ghost image of a `Media`.
pub struct MediaV {
    pub image: bool,
    pub label_id: Option<Seq<char>>,
    pub label: Option<Seq<char>>,
    pub reference_id: Option<Seq<char>>,
    pub destination: Option<Seq<char>>,
    pub title: Option<Seq<char>>,
}

/// The view of an optional string.
pub open spec fn opt_view(o: Option<String>) -> Option<Seq<char>> {
    match o {
        Some(s) => Some(s@),
        None => None,
    }
}

impl View for Media {
    type V = MediaV;

    open spec fn view(&self) -> MediaV {
        MediaV {
            image: self.image,
            label_id: opt_view(self.label_id),
            label: opt_view(self.label),
            reference_id: opt_view(self.reference_id),
            destination: opt_view(self.destination),
            title: opt_view(self.title),
        }
    }
}

/// A collected link reference definition.
#[derive(Debug)]
pub struct Definition {
    /// The normalized identifier it is filed under.
    pub id: String,
    /// The destination URL, not yet sanitized.
    pub destination: Option<String>,
    /// The title.
    pub title: Option<String>,
}

/// The ghost image of a `Definition`.
pub struct DefinitionV {
    pub id: Seq<char>,
    pub destination: Option<Seq<char>>,
    pub title: Option<Seq<char>>,
}

impl View for Definition {
    type V = DefinitionV;

    open spec fn view(&self) -> DefinitionV {
        DefinitionV {
            id: self.id@,
            destination: opt_view(self.destination),
            title: opt_view(self.title),
        }
    }
}

/// The ghost image of a whole compilation context.
pub struct CtxV {
    pub events: Seq<Event>,
    pub codes: Seq<Code>,
    pub atx_opening_sequence_size: Option<int>,
    pub heading_setext_buffer: Option<Seq<char>>,
    pub code_flow_seen_data: Option<bool>,
    pub code_fenced_fences_count: Option<int>,
    pub code_text_inside: bool,
    pub character_reference_kind: Option<CharacterReferenceKind>,
    pub expect_first_item: Option<bool>,
    pub media_stack: Seq<MediaV>,
    pub definitions: Seq<DefinitionV>,
    pub tight_stack: Seq<bool>,
    pub slurp_one_line_ending: bool,
    pub tags: bool,
    pub ignore_encode: bool,
    pub last_was_tag: bool,
    pub protocol_href: Option<Seq<Seq<char>>>,
    pub protocol_src: Option<Seq<Seq<char>>>,
    pub line_ending_default: LineEnding,
    pub allow_dangerous_html: bool,
    pub buffers: Seq<Seq<char>>,
    pub index: int,
}

impl CtxV {
    /// A context always owns at least the bottom buffer.
    pub open spec fn wf(self) -> bool {
        self.buffers.len() >= 1
    }

    /// The buffer currently written to.
    pub open spec fn top(self) -> Seq<char> {
        self.buffers.last()
    }

    /// Append text to the top buffer.
    pub open spec fn push_v(self, v: Seq<char>) -> CtxV {
        CtxV {
            buffers: self.buffers.update(self.buffers.len() - 1, self.buffers.last() + v),
            last_was_tag: false,
            ..self
        }
    }

    /// Append text, HTML-encoding it unless encoding is off.
    pub open spec fn push_raw_v(self, v: Seq<char>) -> CtxV {
        if self.ignore_encode {
            self.push_v(v)
        } else {
            self.push_v(encoded(v))
        }
    }

    /// Append a structural tag; suppressed while tags are off.
    pub open spec fn tag_v(self, v: Seq<char>) -> CtxV {
        if self.tags {
            CtxV { last_was_tag: true, ..self.push_v(v) }
        } else {
            self
        }
    }

    /// Open a fresh buffer.
    pub open spec fn buffer_v(self) -> CtxV {
        CtxV { buffers: self.buffers.push(Seq::empty()), ..self }
    }

    /// Drop the top buffer.
    pub open spec fn pop_v(self) -> CtxV {
        CtxV { buffers: self.buffers.drop_last(), ..self }
    }

    /// Append the default line ending.
    pub open spec fn line_ending_v(self) -> CtxV {
        self.push_v(self.line_ending_default.eol())
    }

    /// Whether the top buffer ends mid-line: non-empty and not already
    /// closed by a line ending.
    pub open spec fn needs_eol(self) -> bool {
        self.top().len() > 0 && self.top().last() != '\n' && self.top().last() != '\r'
    }

    /// Append a line ending only when the top buffer ends mid-line.
    pub open spec fn line_ending_if_needed_v(self) -> CtxV {
        if self.needs_eol() {
            self.line_ending_v()
        } else {
            self
        }
    }

    /// The current list context: tight unless nothing says so.
    pub open spec fn tight_top(self) -> bool {
        if self.tight_stack.len() > 0 {
            self.tight_stack.last()
        } else {
            false
        }
    }
}

/// The schemes `href` URLs may carry by default.
pub open spec fn safe_protocol_href() -> Seq<Seq<char>> {
    seq!["http"@, "https"@, "irc"@, "ircs"@, "mailto"@, "xmpp"@]
}

/// The schemes `src` URLs may carry by default.
pub open spec fn safe_protocol_src() -> Seq<Seq<char>> {
    seq!["http"@, "https"@]
}

/// Context used to compile markdown.
pub struct CompileContext<'a> {
    /// Static info.
    pub events: &'a [Event],
    pub codes: &'a [Code],
    /// Fields handlers use to track what their construct needs.
    pub atx_opening_sequence_size: Option<usize>,
    pub heading_setext_buffer: Option<String>,
    pub code_flow_seen_data: Option<bool>,
    pub code_fenced_fences_count: Option<usize>,
    pub code_text_inside: bool,
    pub character_reference_kind: Option<CharacterReferenceKind>,
    pub expect_first_item: Option<bool>,
    pub media_stack: Vec<Media>,
    pub definitions: Vec<Definition>,
    pub tight_stack: Vec<bool>,
    /// Fields that steer the compilation as a whole.
    pub slurp_one_line_ending: bool,
    pub tags: bool,
    pub ignore_encode: bool,
    pub last_was_tag: bool,
    /// Configuration.
    pub protocol_href: Option<Vec<String>>,
    pub protocol_src: Option<Vec<String>>,
    pub line_ending_default: LineEnding,
    pub allow_dangerous_html: bool,
    /// Intermediate results.
    pub buffers: Vec<String>,
    pub index: usize,
}

impl<'a> View for CompileContext<'a> {
    type V = CtxV;

    open spec fn view(&self) -> CtxV {
        CtxV {
            events: self.events@,
            codes: self.codes@,
            atx_opening_sequence_size: match self.atx_opening_sequence_size {
                Some(n) => Some(n as int),
                None => None,
            },
            heading_setext_buffer: opt_view(self.heading_setext_buffer),
            code_flow_seen_data: self.code_flow_seen_data,
            code_fenced_fences_count: match self.code_fenced_fences_count {
                Some(n) => Some(n as int),
                None => None,
            },
            code_text_inside: self.code_text_inside,
            character_reference_kind: self.character_reference_kind,
            expect_first_item: self.expect_first_item,
            media_stack: self.media_stack@.map_values(|m: Media| m@),
            definitions: self.definitions@.map_values(|d: Definition| d@),
            tight_stack: self.tight_stack@,
            slurp_one_line_ending: self.slurp_one_line_ending,
            tags: self.tags,
            ignore_encode: self.ignore_encode,
            last_was_tag: self.last_was_tag,
            protocol_href: protocols_view(&self.protocol_href),
            protocol_src: protocols_view(&self.protocol_src),
            line_ending_default: self.line_ending_default,
            allow_dangerous_html: self.allow_dangerous_html,
            buffers: self.buffers@.map_values(|s: String| s@),
            index: self.index as int,
        }
    }
}

/// The state a fresh context starts from.
pub open spec fn initial_context(
    events: Seq<Event>,
    codes: Seq<Code>,
    options: Options,
    line_ending: LineEnding,
) -> CtxV {
    CtxV {
        events: events,
        codes: codes,
        atx_opening_sequence_size: None,
        heading_setext_buffer: None,
        code_flow_seen_data: None,
        code_fenced_fences_count: None,
        code_text_inside: false,
        character_reference_kind: None,
        expect_first_item: None,
        media_stack: Seq::empty(),
        definitions: Seq::empty(),
        tight_stack: Seq::empty(),
        slurp_one_line_ending: false,
        tags: true,
        ignore_encode: false,
        last_was_tag: false,
        protocol_href: if options.allow_dangerous_protocol {
            None
        } else {
            Some(safe_protocol_href())
        },
        protocol_src: if options.allow_dangerous_protocol {
            None
        } else {
            Some(safe_protocol_src())
        },
        line_ending_default: line_ending,
        allow_dangerous_html: options.allow_dangerous_html,
        buffers: seq![Seq::empty()],
        index: 0,
    }
}

impl<'a> CompileContext<'a> {
    /// Create a new compile context.
    pub fn new(
        events: &'a [Event],
        codes: &'a [Code],
        options: &Options,
        line_ending: LineEnding,
    ) -> (r: CompileContext<'a>)
        ensures
            r@ == initial_context(events@, codes@, *options, line_ending),
            r@.wf(),
    {
        let protocol_href: Option<Vec<String>> = if options.allow_dangerous_protocol {
            None
        } else {
            let mut v: Vec<String> = Vec::new();
            v.push(String::from_str("http"));
            v.push(String::from_str("https"));
            v.push(String::from_str("irc"));
            v.push(String::from_str("ircs"));
            v.push(String::from_str("mailto"));
            v.push(String::from_str("xmpp"));
            proof {
                assert(v@.map_values(|s: String| s@) =~= safe_protocol_href());
            }
            Some(v)
        };
        let protocol_src: Option<Vec<String>> = if options.allow_dangerous_protocol {
            None
        } else {
            let mut v: Vec<String> = Vec::new();
            v.push(String::from_str("http"));
            v.push(String::from_str("https"));
            proof {
                assert(v@.map_values(|s: String| s@) =~= safe_protocol_src());
            }
            Some(v)
        };
        let mut buffers: Vec<String> = Vec::new();
        buffers.push(String::new());
        let r = CompileContext {
            events,
            codes,
            atx_opening_sequence_size: None,
            heading_setext_buffer: None,
            code_flow_seen_data: None,
            code_fenced_fences_count: None,
            code_text_inside: false,
            character_reference_kind: None,
            expect_first_item: None,
            media_stack: Vec::new(),
            definitions: Vec::new(),
            tight_stack: Vec::new(),
            slurp_one_line_ending: false,
            tags: true,
            ignore_encode: false,
            last_was_tag: false,
            protocol_href,
            protocol_src,
            line_ending_default: line_ending,
            allow_dangerous_html: options.allow_dangerous_html,
            buffers,
            index: 0,
        };
        proof {
            assert(r.media_stack@.map_values(|m: Media| m@) =~= Seq::<MediaV>::empty());
            assert(r.definitions@.map_values(|d: Definition| d@) =~= Seq::<DefinitionV>::empty());
            assert(r.buffers@.map_values(|s: String| s@) =~= seq![Seq::<char>::empty()]);
            assert(r@ =~= initial_context(events@, codes@, *options, line_ending));
        }
        r
    }

    /// Push a buffer.
    pub fn buffer(&mut self)
        ensures
            final(self)@ == old(self)@.buffer_v(),
    {
        self.buffers.push(String::new());
        proof {
            assert(self.buffers@.map_values(|s: String| s@) =~= old(
                self,
            )@.buffers.push(Seq::empty()));
            assert(final(self)@ =~= old(self)@.buffer_v());
        }
    }

    /// Pop a buffer, returning its value.
    pub fn resume(&mut self) -> (r: String)
        requires
            old(self)@.wf(),
        ensures
            final(self)@ == old(self)@.pop_v(),
            r@ == old(self)@.top(),
    {
        let r = match self.buffers.pop() {
            Some(s) => s,
            None => String::new(),
        };
        proof {
            assert(self.buffers@.map_values(|s: String| s@) =~= old(self)@.buffers.drop_last());
            assert(final(self)@ =~= old(self)@.pop_v());
        }
        r
    }

    /// Append text to the current buffer.
    pub fn push(&mut self, value: &str)
        requires
            old(self)@.wf(),
        ensures
            final(self)@ == old(self)@.push_v(value@),
    {
        let n = self.buffers.len();
        let b = &mut self.buffers[n - 1];
        b.append(value);
        self.last_was_tag = false;
        proof {
            assert(self.buffers@.map_values(|s: String| s@) =~= old(self)@.buffers.update(
                old(self)@.buffers.len() - 1,
                old(self)@.buffers.last() + value@,
            ));
            assert(final(self)@ =~= old(self)@.push_v(value@));
        }
    }

    /// Append text, HTML-encoding it unless encoding is off.
    pub fn push_raw(&mut self, value: &str)
        requires
            old(self)@.wf(),
        ensures
            final(self)@ == old(self)@.push_raw_v(value@),
    {
        if self.ignore_encode {
            self.push(value);
        } else {
            let e = encode(value);
            self.push(e.as_str());
        }
    }

    /// Append a structural tag, unless tags are off (inside an image).
    pub fn tag(&mut self, value: &str)
        requires
            old(self)@.wf(),
        ensures
            final(self)@ == old(self)@.tag_v(value@),
    {
        if self.tags {
            self.push(value);
            self.last_was_tag = true;
            proof {
                assert(final(self)@ =~= old(self)@.tag_v(value@));
            }
        }
    }

    /// Get the current buffer.
    pub fn buf_tail(&self) -> (r: &String)
        requires
            self@.wf(),
        ensures
            r@ == self@.top(),
    {
        let n = self.buffers.len();
        &self.buffers[n - 1]
    }

    /// Add a line ending.
    pub fn line_ending(&mut self)
        requires
            old(self)@.wf(),
        ensures
            final(self)@ == old(self)@.line_ending_v(),
    {
        let le = self.line_ending_default;
        let eol = le.as_str();
        self.push(eol);
    }

    /// Add a line ending if needed: none when the buffer is empty or
    /// already ends in one.
    pub fn line_ending_if_needed(&mut self)
        requires
            old(self)@.wf(),
        ensures
            final(self)@ == old(self)@.line_ending_if_needed_v(),
    {
        let add = {
            let t = self.buf_tail();
            let m = t.as_str().unicode_len();
            if m == 0 {
                false
            } else {
                let c = t.as_str().get_char(m - 1);
                !(c == '\n' || c == '\r')
            }
        };
        if add {
            self.line_ending();
        }
    }
}

/// The source text behind the exit event at `i`, when its span is well
/// formed: bounds inside the code array, start before end.
pub open spec fn spec_span_text(events: Seq<Event>, codes: Seq<Code>, i: int) -> Option<Seq<char>> {
    match spec_span_of(events, i) {
        Some(sp) => {
            if sp.start_index <= sp.end_index && sp.end_index <= codes.len() {
                Some(serialized(codes, sp.start_index as int, sp.end_index as int))
            } else {
                None
            }
        },
        None => None,
    }
}

/// The source text behind the exit event the context stands on.
pub open spec fn span_text(c: CtxV) -> Option<Seq<char>> {
    spec_span_text(c.events, c.codes, c.index)
}

/// Serialize the span of the exit event at `index`, if it is well formed.
fn exit_span_string(events: &[Event], codes: &[Code], index: usize) -> (r: Option<String>)
    requires
        index < events@.len(),
    ensures
        match r {
            Some(s) => spec_span_text(events@, codes@, index as int) == Some(s@),
            None => spec_span_text(events@, codes@, index as int) is None,
        },
{
    match from_exit_event(events, index) {
        Some(sp) => {
            if sp.start_index <= sp.end_index && sp.end_index <= codes.len() {
                Some(serialize(codes, sp.start_index, sp.end_index))
            } else {
                None
            }
        },
        None => None,
    }
}

/// Buffered constructs simply open a buffer on entry.
pub open spec fn step_enter_buffer(c: CtxV) -> CtxV {
    c.buffer_v()
}

fn on_enter_buffer(context: &mut CompileContext)
    requires
        old(context)@.wf(),
    ensures
        final(context)@ == step_enter_buffer(old(context)@),
        final(context)@.wf(),
{
    context.buffer();
}

/// A blockquote makes the list context loose, breaks the line and opens
/// its tag.
pub open spec fn step_enter_block_quote(c: CtxV) -> CtxV {
    let c1 = CtxV { tight_stack: c.tight_stack.push(false), ..c };
    c1.line_ending_if_needed_v().tag_v("<blockquote>"@)
}

fn on_enter_block_quote(context: &mut CompileContext)
    requires
        old(context)@.wf(),
    ensures
        final(context)@ == step_enter_block_quote(old(context)@),
        final(context)@.wf(),
{
    context.tight_stack.push(false);
    context.line_ending_if_needed();
    context.tag("<blockquote>");
}

/// Indented code opens `<pre><code>` on a fresh line.
pub open spec fn step_enter_code_indented(c: CtxV) -> CtxV {
    let c1 = CtxV { code_flow_seen_data: Some(false), ..c };
    c1.line_ending_if_needed_v().tag_v("<pre><code>"@)
}

fn on_enter_code_indented(context: &mut CompileContext)
    requires
        old(context)@.wf(),
    ensures
        final(context)@ == step_enter_code_indented(old(context)@),
        final(context)@.wf(),
{
    context.code_flow_seen_data = Some(false);
    context.line_ending_if_needed();
    context.tag("<pre><code>");
}

/// Fenced code opens `<pre><code` and leaves the tag open for an info
/// string; the fence counter starts at zero.
pub open spec fn step_enter_code_fenced(c: CtxV) -> CtxV {
    let c1 = CtxV { code_flow_seen_data: Some(false), ..c };
    let c2 = c1.line_ending_if_needed_v().tag_v("<pre><code"@);
    CtxV { code_fenced_fences_count: Some(0), ..c2 }
}

fn on_enter_code_fenced(context: &mut CompileContext)
    requires
        old(context)@.wf(),
    ensures
        final(context)@ == step_enter_code_fenced(old(context)@),
        final(context)@.wf(),
{
    context.code_flow_seen_data = Some(false);
    context.line_ending_if_needed();
    context.tag("<pre><code");
    context.code_fenced_fences_count = Some(0);
}

/// A code span opens `<code>` and buffers its content for the trim on
/// exit.
pub open spec fn step_enter_code_text(c: CtxV) -> CtxV {
    let c1 = CtxV { code_text_inside: true, ..c };
    c1.tag_v("<code>"@).buffer_v()
}

fn on_enter_code_text(context: &mut CompileContext)
    requires
        old(context)@.wf(),
    ensures
        final(context)@ == step_enter_code_text(old(context)@),
        final(context)@.wf(),
{
    context.code_text_inside = true;
    context.tag("<code>");
    context.buffer();
}

/// An empty media record.
pub open spec fn empty_media(image: bool) -> MediaV {
    MediaV {
        image: image,
        label_id: None,
        label: None,
        reference_id: None,
        destination: None,
        title: None,
    }
}

/// A definition buffers its whole output (it is discarded later) and
/// starts a media record to collect label, destination and title.
pub open spec fn step_enter_definition(c: CtxV) -> CtxV {
    let c1 = c.buffer_v();
    CtxV { media_stack: c1.media_stack.push(empty_media(false)), ..c1 }
}

fn push_media(context: &mut CompileContext, image: bool)
    ensures
        final(context)@ == (CtxV {
            media_stack: old(context)@.media_stack.push(empty_media(image)),
            ..old(context)@
        }),
{
    context.media_stack.push(
        Media {
            image,
            label: None,
            label_id: None,
            reference_id: None,
            destination: None,
            title: None,
        },
    );
    proof {
        assert(context.media_stack@.map_values(|m: Media| m@) =~= old(
            context,
        )@.media_stack.push(empty_media(image)));
        assert(final(context)@ =~= (CtxV {
            media_stack: old(context)@.media_stack.push(empty_media(image)),
            ..old(context)@
        }));
    }
}

fn on_enter_definition(context: &mut CompileContext)
    requires
        old(context)@.wf(),
    ensures
        final(context)@ == step_enter_definition(old(context)@),
        final(context)@.wf(),
{
    context.buffer();
    push_media(context, false);
}

/// A definition's destination buffers raw: the URL is percent-encoded
/// first and HTML-encoded only when emitted.
pub open spec fn step_enter_definition_destination_string(c: CtxV) -> CtxV {
    CtxV { ignore_encode: true, ..c.buffer_v() }
}

fn on_enter_definition_destination_string(context: &mut CompileContext)
    requires
        old(context)@.wf(),
    ensures
        final(context)@ == step_enter_definition_destination_string(old(context)@),
        final(context)@.wf(),
{
    context.buffer();
    context.ignore_encode = true;
}

/// Emphasis opens `<em>`.
pub open spec fn step_enter_emphasis(c: CtxV) -> CtxV {
    c.tag_v("<em>"@)
}

fn on_enter_emphasis(context: &mut CompileContext)
    requires
        old(context)@.wf(),
    ensures
        final(context)@ == step_enter_emphasis(old(context)@),
        final(context)@.wf(),
{
    context.tag("<em>");
}

/// HTML flow breaks the line; raw passthrough only when allowed.
pub open spec fn step_enter_html_flow(c: CtxV) -> CtxV {
    let c1 = c.line_ending_if_needed_v();
    if c1.allow_dangerous_html {
        CtxV { ignore_encode: true, ..c1 }
    } else {
        c1
    }
}

fn on_enter_html_flow(context: &mut CompileContext)
    requires
        old(context)@.wf(),
    ensures
        final(context)@ == step_enter_html_flow(old(context)@),
        final(context)@.wf(),
{
    context.line_ending_if_needed();
    if context.allow_dangerous_html {
        context.ignore_encode = true;
    }
}

/// Inline HTML: raw passthrough only when allowed.
pub open spec fn step_enter_html_text(c: CtxV) -> CtxV {
    if c.allow_dangerous_html {
        CtxV { ignore_encode: true, ..c }
    } else {
        c
    }
}

fn on_enter_html_text(context: &mut CompileContext)
    requires
        old(context)@.wf(),
    ensures
        final(context)@ == step_enter_html_text(old(context)@),
        final(context)@.wf(),
{
    if context.allow_dangerous_html {
        context.ignore_encode = true;
    }
}

/// An image starts a media record and suppresses structural tags: its
/// content renders as plain alt text.
pub open spec fn step_enter_image(c: CtxV) -> CtxV {
    CtxV { media_stack: c.media_stack.push(empty_media(true)), tags: false, ..c }
}

fn on_enter_image(context: &mut CompileContext)
    requires
        old(context)@.wf(),
    ensures
        final(context)@ == step_enter_image(old(context)@),
        final(context)@.wf(),
{
    push_media(context, true);
    context.tags = false;
}

/// A link starts a media record.
pub open spec fn step_enter_link(c: CtxV) -> CtxV {
    CtxV { media_stack: c.media_stack.push(empty_media(false)), ..c }
}

fn on_enter_link(context: &mut CompileContext)
    requires
        old(context)@.wf(),
    ensures
        final(context)@ == step_enter_link(old(context)@),
        final(context)@.wf(),
{
    push_media(context, false);
}

/// A paragraph opens `<p>` on a fresh line, except inside a tight list.
pub open spec fn step_enter_paragraph(c: CtxV) -> CtxV {
    if !c.tight_top() {
        c.line_ending_if_needed_v().tag_v("<p>"@)
    } else {
        c
    }
}

fn on_enter_paragraph(context: &mut CompileContext)
    requires
        old(context)@.wf(),
    ensures
        final(context)@ == step_enter_paragraph(old(context)@),
        final(context)@.wf(),
{
    let tight = {
        let n = context.tight_stack.len();
        if n > 0 {
            context.tight_stack[n - 1]
        } else {
            false
        }
    };
    if !tight {
        context.line_ending_if_needed();
        context.tag("<p>");
    }
}

/// A resource buffers what it covers (line endings inside it must not
/// leak out) and marks the media as carrying its own destination.
pub open spec fn step_enter_resource(c: CtxV) -> CtxV {
    let c1 = c.buffer_v();
    if c1.media_stack.len() > 0 {
        CtxV {
            media_stack: c1.media_stack.update(
                c1.media_stack.len() - 1,
                (MediaV { destination: Some(Seq::empty()), ..c1.media_stack.last() }),
            ),
            ..c1
        }
    } else {
        c1
    }
}

fn on_enter_resource(context: &mut CompileContext)
    requires
        old(context)@.wf(),
    ensures
        final(context)@ == step_enter_resource(old(context)@),
        final(context)@.wf(),
{
    context.buffer();
    let n = context.media_stack.len();
    if n > 0 {
        let ghost mid = context@;
        let m = &mut context.media_stack[n - 1];
        m.destination = Some(String::new());
        proof {
            assert(context.media_stack@.map_values(|m: Media| m@) =~= mid.media_stack.update(
                mid.media_stack.len() - 1,
                (MediaV { destination: Some(Seq::empty()), ..mid.media_stack.last() }),
            ));
            assert(final(context)@ =~= step_enter_resource(old(context)@));
        }
    }
}

/// A resource destination buffers raw, like a definition's.
pub open spec fn step_enter_resource_destination_string(c: CtxV) -> CtxV {
    CtxV { ignore_encode: true, ..c.buffer_v() }
}

fn on_enter_resource_destination_string(context: &mut CompileContext)
    requires
        old(context)@.wf(),
    ensures
        final(context)@ == step_enter_resource_destination_string(old(context)@),
        final(context)@.wf(),
{
    context.buffer();
    context.ignore_encode = true;
}

/// Strong emphasis opens `<strong>`.
pub open spec fn step_enter_strong(c: CtxV) -> CtxV {
    c.tag_v("<strong>"@)
}

fn on_enter_strong(context: &mut CompileContext)
    requires
        old(context)@.wf(),
    ensures
        final(context)@ == step_enter_strong(old(context)@),
        final(context)@.wf(),
{
    context.tag("<strong>");
}


/// Update the newest media record.
pub open spec fn with_last_media(c: CtxV, m: MediaV) -> CtxV {
    CtxV { media_stack: c.media_stack.update(c.media_stack.len() - 1, m), ..c }
}

/// Pop a buffer and ignore what it held.
pub open spec fn step_exit_drop(c: CtxV) -> CtxV {
    if c.buffers.len() >= 2 {
        c.pop_v()
    } else {
        c
    }
}

fn on_exit_drop(context: &mut CompileContext)
    requires
        old(context)@.wf(),
    ensures
        final(context)@ == step_exit_drop(old(context)@),
        final(context)@.wf(),
{
    if context.buffers.len() >= 2 {
        let _dropped = context.resume();
    }
}

/// Plain data: the span's text, HTML-encoded.
pub open spec fn step_exit_data(c: CtxV) -> CtxV {
    match span_text(c) {
        Some(t) => c.push_raw_v(t),
        None => c,
    }
}

fn on_exit_data(context: &mut CompileContext)
    requires
        old(context)@.wf(),
        old(context)@.index < old(context)@.events.len(),
    ensures
        final(context)@ == step_exit_data(old(context)@),
        final(context)@.wf(),
{
    let t = exit_span_string(context.events, context.codes, context.index);
    match t {
        Some(s) => context.push_raw(s.as_str()),
        None => {},
    }
}

/// An email autolink: a `mailto:` anchor around the encoded address.
pub open spec fn step_exit_autolink_email(c: CtxV) -> CtxV {
    match span_text(c) {
        None => c,
        Some(s) => {
            let href = spec_sanitize("mailto:"@ + s, c.protocol_href);
            c.tag_v("<a href=\""@ + href + "\">"@).push_raw_v(s).tag_v("</a>"@)
        },
    }
}

fn on_exit_autolink_email(context: &mut CompileContext)
    requires
        old(context)@.wf(),
        old(context)@.index < old(context)@.events.len(),
    ensures
        final(context)@ == step_exit_autolink_email(old(context)@),
        final(context)@.wf(),
{
    let t = exit_span_string(context.events, context.codes, context.index);
    let slice = match t {
        Some(s) => s,
        None => {
            return ;
        },
    };
    let mut m = String::from_str("mailto:");
    m.append(slice.as_str());
    let href = sanitize_uri(m.as_str(), &context.protocol_href);
    let mut open_tag = String::from_str("<a href=\"");
    open_tag.append(href.as_str());
    open_tag.append("\">");
    context.tag(open_tag.as_str());
    context.push_raw(slice.as_str());
    context.tag("</a>");
}

/// A protocol autolink: an anchor around the encoded URL.
pub open spec fn step_exit_autolink_protocol(c: CtxV) -> CtxV {
    match span_text(c) {
        None => c,
        Some(s) => {
            let href = spec_sanitize(s, c.protocol_href);
            c.tag_v("<a href=\""@ + href + "\">"@).push_raw_v(s).tag_v("</a>"@)
        },
    }
}

fn on_exit_autolink_protocol(context: &mut CompileContext)
    requires
        old(context)@.wf(),
        old(context)@.index < old(context)@.events.len(),
    ensures
        final(context)@ == step_exit_autolink_protocol(old(context)@),
        final(context)@.wf(),
{
    let t = exit_span_string(context.events, context.codes, context.index);
    let slice = match t {
        Some(s) => s,
        None => {
            return ;
        },
    };
    let href = sanitize_uri(slice.as_str(), &context.protocol_href);
    let mut open_tag = String::from_str("<a href=\"");
    open_tag.append(href.as_str());
    open_tag.append("\">");
    context.tag(open_tag.as_str());
    context.push_raw(slice.as_str());
    context.tag("</a>");
}

/// A hard break becomes `<br />`.
pub open spec fn step_exit_break(c: CtxV) -> CtxV {
    c.tag_v("<br />"@)
}

fn on_exit_break(context: &mut CompileContext)
    requires
        old(context)@.wf(),
    ensures
        final(context)@ == step_exit_break(old(context)@),
        final(context)@.wf(),
{
    context.tag("<br />");
}

/// A blank line at the very end of the input closes the last line.
pub open spec fn step_exit_blank_line_ending(c: CtxV) -> CtxV {
    if c.index == c.events.len() - 1 {
        c.line_ending_if_needed_v()
    } else {
        c
    }
}

fn on_exit_blank_line_ending(context: &mut CompileContext)
    requires
        old(context)@.wf(),
        old(context)@.index < old(context)@.events.len(),
    ensures
        final(context)@ == step_exit_blank_line_ending(old(context)@),
        final(context)@.wf(),
{
    if context.index == context.events.len() - 1 {
        context.line_ending_if_needed();
    }
}

/// Closing a blockquote: leave the list context, close the line and the
/// tag, and stop slurping.
pub open spec fn step_exit_block_quote(c: CtxV) -> CtxV {
    let c1 = CtxV {
        tight_stack: if c.tight_stack.len() > 0 {
            c.tight_stack.drop_last()
        } else {
            c.tight_stack
        },
        ..c
    };
    let c2 = c1.line_ending_if_needed_v();
    CtxV { slurp_one_line_ending: false, ..c2 }.tag_v("</blockquote>"@)
}

fn on_exit_block_quote(context: &mut CompileContext)
    requires
        old(context)@.wf(),
    ensures
        final(context)@ == step_exit_block_quote(old(context)@),
        final(context)@.wf(),
{
    let _popped = context.tight_stack.pop();
    context.line_ending_if_needed();
    context.slurp_one_line_ending = false;
    context.tag("</blockquote>");
}

/// `&` announces a named reference until a numeric marker follows.
pub open spec fn step_exit_character_reference_marker(c: CtxV) -> CtxV {
    CtxV { character_reference_kind: Some(CharacterReferenceKind::Named), ..c }
}

fn on_exit_character_reference_marker(context: &mut CompileContext)
    requires
        old(context)@.wf(),
    ensures
        final(context)@ == step_exit_character_reference_marker(old(context)@),
        final(context)@.wf(),
{
    context.character_reference_kind = Some(CharacterReferenceKind::Named);
}

/// `x` after `&#` announces a hexadecimal reference.
pub open spec fn step_exit_character_reference_marker_hexadecimal(c: CtxV) -> CtxV {
    CtxV { character_reference_kind: Some(CharacterReferenceKind::Hexadecimal), ..c }
}

fn on_exit_character_reference_marker_hexadecimal(context: &mut CompileContext)
    requires
        old(context)@.wf(),
    ensures
        final(context)@ == step_exit_character_reference_marker_hexadecimal(old(context)@),
        final(context)@.wf(),
{
    context.character_reference_kind = Some(CharacterReferenceKind::Hexadecimal);
}

/// `#` after `&` announces a decimal reference.
pub open spec fn step_exit_character_reference_marker_numeric(c: CtxV) -> CtxV {
    CtxV { character_reference_kind: Some(CharacterReferenceKind::Decimal), ..c }
}

fn on_exit_character_reference_marker_numeric(context: &mut CompileContext)
    requires
        old(context)@.wf(),
    ensures
        final(context)@ == step_exit_character_reference_marker_numeric(old(context)@),
        final(context)@.wf(),
{
    context.character_reference_kind = Some(CharacterReferenceKind::Decimal);
}

/// Decode the reference's value as its marker announced and append it.
pub open spec fn step_exit_character_reference_value(c: CtxV) -> CtxV {
    match (c.character_reference_kind, span_text(c)) {
        (Some(kind), Some(s)) => {
            let value = match kind {
                CharacterReferenceKind::Decimal => spec_decode_numeric(s, 10),
                CharacterReferenceKind::Hexadecimal => spec_decode_numeric(s, 16),
                CharacterReferenceKind::Named => spec_decode_named(s),
            };
            CtxV { character_reference_kind: None, ..c }.push_raw_v(value)
        },
        _ => c,
    }
}

fn on_exit_character_reference_value(context: &mut CompileContext)
    requires
        old(context)@.wf(),
        old(context)@.index < old(context)@.events.len(),
    ensures
        final(context)@ == step_exit_character_reference_value(old(context)@),
        final(context)@.wf(),
{
    let kind = match context.character_reference_kind {
        Some(k) => k,
        None => {
            return ;
        },
    };
    let t = exit_span_string(context.events, context.codes, context.index);
    let s = match t {
        Some(s) => s,
        None => {
            return ;
        },
    };
    context.character_reference_kind = None;
    let value = match kind {
        CharacterReferenceKind::Decimal => decode_numeric(s.as_str(), 10),
        CharacterReferenceKind::Hexadecimal => decode_numeric(s.as_str(), 16),
        CharacterReferenceKind::Named => decode_named(s.as_str()),
    };
    context.push_raw(value.as_str());
}

/// A chunk of code block content: raw text, encoded; data was seen.
pub open spec fn step_exit_code_flow_chunk(c: CtxV) -> CtxV {
    match span_text(c) {
        Some(t) => CtxV { code_flow_seen_data: Some(true), ..c }.push_raw_v(t),
        None => c,
    }
}

fn on_exit_code_flow_chunk(context: &mut CompileContext)
    requires
        old(context)@.wf(),
        old(context)@.index < old(context)@.events.len(),
    ensures
        final(context)@ == step_exit_code_flow_chunk(old(context)@),
        final(context)@.wf(),
{
    let t = exit_span_string(context.events, context.codes, context.index);
    match t {
        Some(s) => {
            context.code_flow_seen_data = Some(true);
            context.push_raw(s.as_str());
        },
        None => {},
    }
}

/// The first fence closes the opening tag with `>` and swallows the
/// following line ending; every fence is counted.
pub open spec fn step_exit_code_fenced_fence(c: CtxV) -> CtxV {
    let count: int = match c.code_fenced_fences_count {
        Some(n) => n,
        None => 0,
    };
    let c1 = if count == 0 {
        CtxV { slurp_one_line_ending: true, ..c.tag_v(">"@) }
    } else {
        c
    };
    let next: int = if count == usize::MAX as int {
        count
    } else {
        count + 1
    };
    CtxV { code_fenced_fences_count: Some(next), ..c1 }
}

fn on_exit_code_fenced_fence(context: &mut CompileContext)
    requires
        old(context)@.wf(),
    ensures
        final(context)@ == step_exit_code_fenced_fence(old(context)@),
        final(context)@.wf(),
{
    let count = match context.code_fenced_fences_count {
        Some(n) => n,
        None => 0,
    };
    if count == 0 {
        context.tag(">");
        context.slurp_one_line_ending = true;
    }
    let next = if count == usize::MAX {
        count
    } else {
        count + 1
    };
    context.code_fenced_fences_count = Some(next);
}

/// The info string of a fence becomes a `language-` class.
pub open spec fn step_exit_code_fenced_fence_info(c: CtxV) -> CtxV {
    if c.buffers.len() >= 2 {
        let v = c.top();
        c.pop_v().tag_v(" class=\"language-"@ + v + "\""@)
    } else {
        c
    }
}

fn on_exit_code_fenced_fence_info(context: &mut CompileContext)
    requires
        old(context)@.wf(),
    ensures
        final(context)@ == step_exit_code_fenced_fence_info(old(context)@),
        final(context)@.wf(),
{
    if context.buffers.len() < 2 {
        return ;
    }
    let value = context.resume();
    let mut t = String::from_str(" class=\"language-");
    t.append(value.as_str());
    t.append("\"");
    context.tag(t.as_str());
}

/// Close a code block, minding the trailing line endings CommonMark
/// wants in or after the block.
pub open spec fn step_exit_code_flow(c: CtxV) -> CtxV {
    match c.code_flow_seen_data {
        None => c,
        Some(seen) => {
            let c0 = CtxV { code_flow_seen_data: None, ..c };
            let c1 = if c0.code_fenced_fences_count is Some && c0.code_fenced_fences_count->0 == 1
                && c0.tight_stack.len() > 0 && !c0.last_was_tag {
                c0.line_ending_v()
            } else {
                c0
            };
            let c2 = if seen {
                c1.line_ending_if_needed_v()
            } else {
                c1
            };
            let c3 = c2.tag_v("</code></pre>"@);
            let fences = c3.code_fenced_fences_count;
            let c4 = CtxV { code_fenced_fences_count: None, ..c3 };
            let c5 = if fences is Some && fences->0 < 2 {
                c4.line_ending_if_needed_v()
            } else {
                c4
            };
            CtxV { slurp_one_line_ending: false, ..c5 }
        },
    }
}

#[verifier::rlimit(50)]
fn on_exit_code_flow(context: &mut CompileContext)
    requires
        old(context)@.wf(),
    ensures
        final(context)@ == step_exit_code_flow(old(context)@),
        final(context)@.wf(),
{
    let seen = match context.code_flow_seen_data {
        Some(s) => s,
        None => {
            return ;
        },
    };
    let ghost c = old(context)@;
    let ghost c0 = CtxV { code_flow_seen_data: None, ..c };
    context.code_flow_seen_data = None;
    proof {
        assert(context@ =~= c0);
    }
    let fences_now = context.code_fenced_fences_count;
    match fences_now {
        Some(count) => {
            if count == 1 && context.tight_stack.len() > 0 && !context.last_was_tag {
                context.line_ending();
            }
        },
        None => {},
    }
    let ghost c1 = if c0.code_fenced_fences_count is Some && c0.code_fenced_fences_count->0 == 1
        && c0.tight_stack.len() > 0 && !c0.last_was_tag {
        c0.line_ending_v()
    } else {
        c0
    };
    proof {
        assert(context@ =~= c1);
    }
    if seen {
        context.line_ending_if_needed();
    }
    let ghost c2 = if seen {
        c1.line_ending_if_needed_v()
    } else {
        c1
    };
    proof {
        assert(context@ =~= c2);
    }
    context.tag("</code></pre>");
    let ghost c3 = c2.tag_v("</code></pre>"@);
    let fences = context.code_fenced_fences_count;
    context.code_fenced_fences_count = None;
    let ghost c4 = CtxV { code_fenced_fences_count: None, ..c3 };
    proof {
        assert(context@ =~= c4);
    }
    match fences {
        Some(count) => {
            if count < 2 {
                context.line_ending_if_needed();
            }
        },
        None => {},
    }
    let ghost c5 = if c3.code_fenced_fences_count is Some && c3.code_fenced_fences_count->0 < 2 {
        c4.line_ending_if_needed_v()
    } else {
        c4
    };
    proof {
        assert(context@ =~= c5);
    }
    context.slurp_one_line_ending = false;
    proof {
        assert(final(context)@ =~= (CtxV { slurp_one_line_ending: false, ..c5 }));
        assert(final(context)@ =~= step_exit_code_flow(c));
    }
}

/// The trim a code span's content receives: one space off each end when
/// both ends are spaces and something other than spaces stands between.
pub open spec fn code_text_trim(s: Seq<char>) -> Seq<char> {
    if s.len() >= 2 && s[0] == ' ' && s[s.len() - 1] == ' ' && (exists|j: int|
        1 <= j < s.len() - 1 && s[j] != ' ') {
        s.subrange(1, s.len() - 1)
    } else {
        s
    }
}

/// Close a code span: splice its trimmed content and close the tag.
pub open spec fn step_exit_code_text(c: CtxV) -> CtxV {
    if c.buffers.len() >= 2 {
        let v = c.top();
        let c1 = CtxV { code_text_inside: false, ..c.pop_v() };
        c1.push_v(code_text_trim(v)).tag_v("</code>"@)
    } else {
        c
    }
}

fn on_exit_code_text(context: &mut CompileContext)
    requires
        old(context)@.wf(),
    ensures
        final(context)@ == step_exit_code_text(old(context)@),
        final(context)@.wf(),
{
    if context.buffers.len() < 2 {
        return ;
    }
    let result = context.resume();
    let n = result.as_str().unicode_len();
    let mut trim = false;
    if n >= 2 && result.as_str().get_char(0) == ' ' && result.as_str().get_char(n - 1) == ' ' {
        let mut j: usize = 1;
        while j < n - 1
            invariant
                n >= 2,
                n == result@.len(),
                1 <= j <= n - 1,
                !trim ==> forall|k: int| 1 <= k < j ==> result@[k] == ' ',
                trim ==> exists|k: int| 1 <= k < n - 1 && result@[k] != ' ',
            decreases n - 1 - j,
        {
            if result.as_str().get_char(j) != ' ' {
                trim = true;
            }
            j += 1;
        }
    }
    context.code_text_inside = false;
    if trim {
        let mid = result.as_str().substring_char(1, n - 1);
        context.push(mid);
    } else {
        context.push(result.as_str());
    }
    context.tag("</code>");
}


/// The position of the first definition filed under `id`, from `i` on.
pub open spec fn find_def_from(defs: Seq<DefinitionV>, id: Seq<char>, i: int) -> Option<int>
    decreases defs.len() - i,
    when 0 <= i
{
    if i >= defs.len() {
        None
    } else if defs[i].id == id {
        Some(i)
    } else {
        find_def_from(defs, id, i + 1)
    }
}

/// The position of the first definition filed under `id`.
pub open spec fn find_def(defs: Seq<DefinitionV>, id: Seq<char>) -> Option<int> {
    find_def_from(defs, id, 0)
}

/// When nothing from `i` on matches, there is no match.
proof fn lemma_find_def_none(defs: Seq<DefinitionV>, id: Seq<char>, i: int)
    requires
        0 <= i,
        forall|j: int| i <= j < defs.len() ==> defs[j].id != id,
    ensures
        find_def_from(defs, id, i) is None,
    decreases defs.len() - i,
{
    if i < defs.len() {
        lemma_find_def_none(defs, id, i + 1);
    }
}

/// A hit at `k` behind a miss-only prefix is the first match.
proof fn lemma_find_def_hit(defs: Seq<DefinitionV>, id: Seq<char>, k: int)
    requires
        0 <= k < defs.len(),
        defs[k].id == id,
        forall|j: int| 0 <= j < k ==> defs[j].id != id,
    ensures
        find_def(defs, id) == Some(k),
{
    lemma_find_def_hit_from(defs, id, 0, k);
}

proof fn lemma_find_def_hit_from(defs: Seq<DefinitionV>, id: Seq<char>, i: int, k: int)
    requires
        0 <= i <= k < defs.len(),
        defs[k].id == id,
        forall|j: int| i <= j < k ==> defs[j].id != id,
    ensures
        find_def_from(defs, id, i) == Some(k),
    decreases k - i,
{
    if i < k {
        lemma_find_def_hit_from(defs, id, i + 1, k);
    }
}

/// Closing a definition: file it under its normalized identifier — but
/// only when no earlier definition claimed that identifier. The first
/// definition wins.
pub open spec fn step_exit_definition(c: CtxV) -> CtxV {
    if c.media_stack.len() > 0 && c.buffers.len() >= 2 && c.media_stack.last().reference_id
        is Some {
        let media = c.media_stack.last();
        let id = normalized(media.reference_id->0);
        let c1 = CtxV { media_stack: c.media_stack.drop_last(), ..c }.pop_v();
        if find_def(c1.definitions, id) is Some {
            c1
        } else {
            CtxV {
                definitions: c1.definitions.push(
                    (DefinitionV { id: id, destination: media.destination, title: media.title }),
                ),
                ..c1
            }
        }
    } else {
        c
    }
}

#[verifier::rlimit(30)]
fn on_exit_definition(context: &mut CompileContext)
    requires
        old(context)@.wf(),
    ensures
        final(context)@ == step_exit_definition(old(context)@),
        final(context)@.wf(),
{
    let n = context.media_stack.len();
    if n == 0 || context.buffers.len() < 2 {
        return ;
    }
    if context.media_stack[n - 1].reference_id.is_none() {
        return ;
    }
    let media = match context.media_stack.pop() {
        Some(m) => m,
        None => {
            return ;
        },
    };
    let rid = match &media.reference_id {
        Some(r) => normalize_identifier(r.as_str()),
        None => {
            return ;
        },
    };
    let _resumed = context.resume();
    proof {
        assert(context.media_stack@.map_values(|m: Media| m@) =~= old(
            context,
        )@.media_stack.drop_last());
        assert(context@ =~= (CtxV {
            media_stack: old(context)@.media_stack.drop_last(),
            ..old(context)@
        }).pop_v());
    }
    let ghost defs = context@.definitions;
    let mut found = false;
    let mut idx: usize = 0;
    while idx < context.definitions.len()
        invariant
            defs == context.definitions@.map_values(|d: Definition| d@),
            idx <= defs.len(),
            !found ==> forall|j: int| 0 <= j < idx ==> defs[j].id != rid@,
            found ==> find_def(defs, rid@) is Some,
        decreases defs.len() - idx,
    {
        if str_eq(context.definitions[idx].id.as_str(), rid.as_str()) {
            proof {
                if !found {
                    lemma_find_def_hit(defs, rid@, idx as int);
                }
            }
            found = true;
        }
        idx += 1;
    }
    if !found {
        proof {
            lemma_find_def_none(defs, rid@, 0);
        }
        let ghost mid = context@;
        context.definitions.push(
            Definition { id: rid, destination: media.destination, title: media.title },
        );
        proof {
            assert(context.definitions@.map_values(|d: Definition| d@) =~= mid.definitions.push(
                (DefinitionV {
                    id: normalized(old(context)@.media_stack.last().reference_id->0),
                    destination: old(context)@.media_stack.last().destination,
                    title: old(context)@.media_stack.last().title,
                }),
            ));
            assert(final(context)@ =~= step_exit_definition(old(context)@));
        }
    }
}

/// A definition's destination: take the buffer, store it, turn encoding
/// back on.
pub open spec fn step_exit_definition_destination_string(c: CtxV) -> CtxV {
    if c.buffers.len() >= 2 && c.media_stack.len() > 0 {
        let v = c.top();
        let c1 = c.pop_v();
        CtxV {
            ignore_encode: false,
            ..with_last_media(
                c1,
                (MediaV { destination: Some(v), ..c1.media_stack.last() }),
            )
        }
    } else {
        c
    }
}

fn on_exit_definition_destination_string(context: &mut CompileContext)
    requires
        old(context)@.wf(),
    ensures
        final(context)@ == step_exit_definition_destination_string(old(context)@),
        final(context)@.wf(),
{
    let n = context.media_stack.len();
    if context.buffers.len() < 2 || n == 0 {
        return ;
    }
    let buf = context.resume();
    let ghost bufv = buf@;
    let ghost mid = context@;
    let m = &mut context.media_stack[n - 1];
    m.destination = Some(buf);
    context.ignore_encode = false;
    proof {
        assert(context.media_stack@.map_values(|m: Media| m@) =~= mid.media_stack.update(
            mid.media_stack.len() - 1,
            (MediaV { destination: Some(bufv), ..mid.media_stack.last() }),
        ));
        assert(final(context)@ =~= step_exit_definition_destination_string(old(context)@));
    }
}

/// A definition's label: drop the rendered buffer, keep the raw source
/// text as the identifier.
pub open spec fn step_exit_definition_label_string(c: CtxV) -> CtxV {
    if c.buffers.len() >= 2 && c.media_stack.len() > 0 && span_text(c) is Some {
        let c1 = c.pop_v();
        with_last_media(
            c1,
            (MediaV { reference_id: Some(span_text(c)->0), ..c1.media_stack.last() }),
        )
    } else {
        c
    }
}

fn on_exit_definition_label_string(context: &mut CompileContext)
    requires
        old(context)@.wf(),
        old(context)@.index < old(context)@.events.len(),
    ensures
        final(context)@ == step_exit_definition_label_string(old(context)@),
        final(context)@.wf(),
{
    let n = context.media_stack.len();
    if context.buffers.len() < 2 || n == 0 {
        return ;
    }
    let t = exit_span_string(context.events, context.codes, context.index);
    let text = match t {
        Some(s) => s,
        None => {
            return ;
        },
    };
    let _resumed = context.resume();
    let ghost textv = text@;
    let ghost mid = context@;
    let m = &mut context.media_stack[n - 1];
    m.reference_id = Some(text);
    proof {
        assert(context.media_stack@.map_values(|m: Media| m@) =~= mid.media_stack.update(
            mid.media_stack.len() - 1,
            (MediaV { reference_id: Some(textv), ..mid.media_stack.last() }),
        ));
        assert(final(context)@ =~= step_exit_definition_label_string(old(context)@));
    }
}

/// A definition's title: take the buffer and store it.
pub open spec fn step_exit_definition_title_string(c: CtxV) -> CtxV {
    if c.buffers.len() >= 2 && c.media_stack.len() > 0 {
        let v = c.top();
        let c1 = c.pop_v();
        with_last_media(c1, (MediaV { title: Some(v), ..c1.media_stack.last() }))
    } else {
        c
    }
}

fn on_exit_definition_title_string(context: &mut CompileContext)
    requires
        old(context)@.wf(),
    ensures
        final(context)@ == step_exit_definition_title_string(old(context)@),
        final(context)@.wf(),
{
    let n = context.media_stack.len();
    if context.buffers.len() < 2 || n == 0 {
        return ;
    }
    let buf = context.resume();
    let ghost bufv = buf@;
    let ghost mid = context@;
    let m = &mut context.media_stack[n - 1];
    m.title = Some(buf);
    proof {
        assert(context.media_stack@.map_values(|m: Media| m@) =~= mid.media_stack.update(
            mid.media_stack.len() - 1,
            (MediaV { title: Some(bufv), ..mid.media_stack.last() }),
        ));
        assert(final(context)@ =~= step_exit_definition_title_string(old(context)@));
    }
}

/// Emphasis closes `</em>`.
pub open spec fn step_exit_emphasis(c: CtxV) -> CtxV {
    c.tag_v("</em>"@)
}

fn on_exit_emphasis(context: &mut CompileContext)
    requires
        old(context)@.wf(),
    ensures
        final(context)@ == step_exit_emphasis(old(context)@),
        final(context)@.wf(),
{
    context.tag("</em>");
}

/// Close an ATX heading with the rank its opening sequence set.
pub open spec fn step_exit_heading_atx(c: CtxV) -> CtxV {
    match c.atx_opening_sequence_size {
        Some(rank) => CtxV { atx_opening_sequence_size: None, ..c }.tag_v(
            "</h"@ + spec_dec(rank) + ">"@,
        ),
        None => c,
    }
}

fn on_exit_heading_atx(context: &mut CompileContext)
    requires
        old(context)@.wf(),
    ensures
        final(context)@ == step_exit_heading_atx(old(context)@),
        final(context)@.wf(),
{
    let rank = match context.atx_opening_sequence_size {
        Some(r) => r,
        None => {
            return ;
        },
    };
    context.atx_opening_sequence_size = None;
    let mut t = String::from_str("</h");
    append_dec(&mut t, rank);
    t.append(">");
    context.tag(t.as_str());
}

/// The first ATX opening sequence sets the rank (its length) and opens
/// the heading tag on a fresh line.
pub open spec fn step_exit_heading_atx_sequence(c: CtxV) -> CtxV {
    if c.atx_opening_sequence_size is None {
        match span_text(c) {
            Some(s) => {
                let rank = s.len() as int;
                let c1 = c.line_ending_if_needed_v();
                CtxV { atx_opening_sequence_size: Some(rank), ..c1 }.tag_v(
                    "<h"@ + spec_dec(rank) + ">"@,
                )
            },
            None => c,
        }
    } else {
        c
    }
}

fn on_exit_heading_atx_sequence(context: &mut CompileContext)
    requires
        old(context)@.wf(),
        old(context)@.index < old(context)@.events.len(),
    ensures
        final(context)@ == step_exit_heading_atx_sequence(old(context)@),
        final(context)@.wf(),
{
    if context.atx_opening_sequence_size.is_some() {
        return ;
    }
    let t = exit_span_string(context.events, context.codes, context.index);
    let s = match t {
        Some(s) => s,
        None => {
            return ;
        },
    };
    let rank = s.as_str().unicode_len();
    context.line_ending_if_needed();
    context.atx_opening_sequence_size = Some(rank);
    let mut tg = String::from_str("<h");
    append_dec(&mut tg, rank);
    tg.append(">");
    context.tag(tg.as_str());
}

/// ATX heading text: splice the buffered content back verbatim.
pub open spec fn step_exit_heading_atx_text(c: CtxV) -> CtxV {
    if c.buffers.len() >= 2 {
        let v = c.top();
        c.pop_v().push_v(v)
    } else {
        c
    }
}

fn on_exit_heading_atx_text(context: &mut CompileContext)
    requires
        old(context)@.wf(),
    ensures
        final(context)@ == step_exit_heading_atx_text(old(context)@),
        final(context)@.wf(),
{
    if context.buffers.len() < 2 {
        return ;
    }
    let value = context.resume();
    context.push(value.as_str());
}

/// Setext heading text: keep the content for the underline handler and
/// swallow the line ending before the underline.
pub open spec fn step_exit_heading_setext_text(c: CtxV) -> CtxV {
    if c.buffers.len() >= 2 {
        let v = c.top();
        CtxV { heading_setext_buffer: Some(v), slurp_one_line_ending: true, ..c.pop_v() }
    } else {
        c
    }
}

fn on_exit_heading_setext_text(context: &mut CompileContext)
    requires
        old(context)@.wf(),
    ensures
        final(context)@ == step_exit_heading_setext_text(old(context)@),
        final(context)@.wf(),
{
    if context.buffers.len() < 2 {
        return ;
    }
    let buf = context.resume();
    context.heading_setext_buffer = Some(buf);
    context.slurp_one_line_ending = true;
}

/// A setext underline of `-` makes an `<h2>`, anything else an `<h1>`;
/// the stored text is spliced between the tags.
pub open spec fn step_exit_heading_setext_underline(c: CtxV) -> CtxV {
    match c.heading_setext_buffer {
        Some(text) => {
            let level_two = match spec_span_of(c.events, c.index) {
                Some(sp) => sp.start_index < sp.end_index && sp.start_index < c.codes.len()
                    && c.codes[sp.start_index as int] == Code::Char('-'),
                None => false,
            };
            let c1 = CtxV { heading_setext_buffer: None, ..c }.line_ending_if_needed_v();
            if level_two {
                c1.tag_v("<h2>"@).push_v(text).tag_v("</h2>"@)
            } else {
                c1.tag_v("<h1>"@).push_v(text).tag_v("</h1>"@)
            }
        },
        None => c,
    }
}

fn on_exit_heading_setext_underline(context: &mut CompileContext)
    requires
        old(context)@.wf(),
        old(context)@.index < old(context)@.events.len(),
    ensures
        final(context)@ == step_exit_heading_setext_underline(old(context)@),
        final(context)@.wf(),
{
    let text = match &context.heading_setext_buffer {
        Some(t) => t.clone(),
        None => {
            return ;
        },
    };
    context.heading_setext_buffer = None;
    let level_two = match from_exit_event(context.events, context.index) {
        Some(sp) => {
            if sp.start_index < sp.end_index && sp.start_index < context.codes.len() {
                matches!(context.codes[sp.start_index], Code::Char('-'))
            } else {
                false
            }
        },
        None => false,
    };
    context.line_ending_if_needed();
    if level_two {
        context.tag("<h2>");
        context.push(text.as_str());
        context.tag("</h2>");
    } else {
        context.tag("<h1>");
        context.push(text.as_str());
        context.tag("</h1>");
    }
}

/// Leaving raw HTML turns encoding back on.
pub open spec fn step_exit_html(c: CtxV) -> CtxV {
    CtxV { ignore_encode: false, ..c }
}

fn on_exit_html(context: &mut CompileContext)
    requires
        old(context)@.wf(),
    ensures
        final(context)@ == step_exit_html(old(context)@),
        final(context)@.wf(),
{
    context.ignore_encode = false;
}

fn on_exit_html_data(context: &mut CompileContext)
    requires
        old(context)@.wf(),
        old(context)@.index < old(context)@.events.len(),
    ensures
        final(context)@ == step_exit_data(old(context)@),
        final(context)@.wf(),
{
    let t = exit_span_string(context.events, context.codes, context.index);
    match t {
        Some(s) => context.push_raw(s.as_str()),
        None => {},
    }
}

/// A link or image label: take the rendered buffer as the content.
pub open spec fn step_exit_label(c: CtxV) -> CtxV {
    if c.buffers.len() >= 2 && c.media_stack.len() > 0 {
        let v = c.top();
        let c1 = c.pop_v();
        with_last_media(c1, (MediaV { label: Some(v), ..c1.media_stack.last() }))
    } else {
        c
    }
}

fn on_exit_label(context: &mut CompileContext)
    requires
        old(context)@.wf(),
    ensures
        final(context)@ == step_exit_label(old(context)@),
        final(context)@.wf(),
{
    let n = context.media_stack.len();
    if context.buffers.len() < 2 || n == 0 {
        return ;
    }
    let buf = context.resume();
    let ghost bufv = buf@;
    let ghost mid = context@;
    let m = &mut context.media_stack[n - 1];
    m.label = Some(buf);
    proof {
        assert(context.media_stack@.map_values(|m: Media| m@) =~= mid.media_stack.update(
            mid.media_stack.len() - 1,
            (MediaV { label: Some(bufv), ..mid.media_stack.last() }),
        ));
        assert(final(context)@ =~= step_exit_label(old(context)@));
    }
}

/// The raw label text, kept as the fallback identifier.
pub open spec fn step_exit_label_text(c: CtxV) -> CtxV {
    if c.media_stack.len() > 0 && span_text(c) is Some {
        with_last_media(
            c,
            (MediaV { label_id: Some(span_text(c)->0), ..c.media_stack.last() }),
        )
    } else {
        c
    }
}

fn on_exit_label_text(context: &mut CompileContext)
    requires
        old(context)@.wf(),
        old(context)@.index < old(context)@.events.len(),
    ensures
        final(context)@ == step_exit_label_text(old(context)@),
        final(context)@.wf(),
{
    let n = context.media_stack.len();
    if n == 0 {
        return ;
    }
    let t = exit_span_string(context.events, context.codes, context.index);
    let text = match t {
        Some(s) => s,
        None => {
            return ;
        },
    };
    let ghost textv = text@;
    let ghost mid = context@;
    let m = &mut context.media_stack[n - 1];
    m.label_id = Some(text);
    proof {
        assert(context.media_stack@.map_values(|m: Media| m@) =~= mid.media_stack.update(
            mid.media_stack.len() - 1,
            (MediaV { label_id: Some(textv), ..mid.media_stack.last() }),
        ));
        assert(final(context)@ =~= step_exit_label_text(old(context)@));
    }
}

/// A line ending: a space inside code spans, swallowed after constructs
/// that wrote their own, otherwise the source text itself.
pub open spec fn step_exit_line_ending(c: CtxV) -> CtxV {
    if c.code_text_inside {
        c.push_v(" "@)
    } else if c.slurp_one_line_ending {
        CtxV { slurp_one_line_ending: false, ..c }
    } else {
        match span_text(c) {
            Some(s) => c.push_raw_v(s),
            None => c,
        }
    }
}

fn on_exit_line_ending(context: &mut CompileContext)
    requires
        old(context)@.wf(),
        old(context)@.index < old(context)@.events.len(),
    ensures
        final(context)@ == step_exit_line_ending(old(context)@),
        final(context)@.wf(),
{
    if context.code_text_inside {
        context.push(" ");
    } else if context.slurp_one_line_ending {
        context.slurp_one_line_ending = false;
    } else {
        let t = exit_span_string(context.events, context.codes, context.index);
        match t {
            Some(s) => context.push_raw(s.as_str()),
            None => {},
        }
    }
}

/// A paragraph in a tight list ends by swallowing its line ending; a
/// loose one closes `</p>`.
pub open spec fn step_exit_paragraph(c: CtxV) -> CtxV {
    if c.tight_top() {
        CtxV { slurp_one_line_ending: true, ..c }
    } else {
        c.tag_v("</p>"@)
    }
}

fn on_exit_paragraph(context: &mut CompileContext)
    requires
        old(context)@.wf(),
    ensures
        final(context)@ == step_exit_paragraph(old(context)@),
        final(context)@.wf(),
{
    let tight = {
        let n = context.tight_stack.len();
        if n > 0 {
            context.tight_stack[n - 1]
        } else {
            false
        }
    };
    if tight {
        context.slurp_one_line_ending = true;
    } else {
        context.tag("</p>");
    }
}

/// An explicit reference: drop the rendered buffer, keep the raw source
/// text.
pub open spec fn step_exit_reference_string(c: CtxV) -> CtxV {
    if c.buffers.len() >= 2 && c.media_stack.len() > 0 && span_text(c) is Some {
        let c1 = c.pop_v();
        with_last_media(
            c1,
            (MediaV { reference_id: Some(span_text(c)->0), ..c1.media_stack.last() }),
        )
    } else {
        c
    }
}

fn on_exit_reference_string(context: &mut CompileContext)
    requires
        old(context)@.wf(),
        old(context)@.index < old(context)@.events.len(),
    ensures
        final(context)@ == step_exit_reference_string(old(context)@),
        final(context)@.wf(),
{
    let n = context.media_stack.len();
    if context.buffers.len() < 2 || n == 0 {
        return ;
    }
    let t = exit_span_string(context.events, context.codes, context.index);
    let text = match t {
        Some(s) => s,
        None => {
            return ;
        },
    };
    let _resumed = context.resume();
    let ghost textv = text@;
    let ghost mid = context@;
    let m = &mut context.media_stack[n - 1];
    m.reference_id = Some(text);
    proof {
        assert(context.media_stack@.map_values(|m: Media| m@) =~= mid.media_stack.update(
            mid.media_stack.len() - 1,
            (MediaV { reference_id: Some(textv), ..mid.media_stack.last() }),
        ));
        assert(final(context)@ =~= step_exit_reference_string(old(context)@));
    }
}

/// A resource destination: take the buffer, store it, encoding back on.
pub open spec fn step_exit_resource_destination_string(c: CtxV) -> CtxV {
    step_exit_definition_destination_string(c)
}

fn on_exit_resource_destination_string(context: &mut CompileContext)
    requires
        old(context)@.wf(),
    ensures
        final(context)@ == step_exit_resource_destination_string(old(context)@),
        final(context)@.wf(),
{
    on_exit_definition_destination_string(context);
}

/// A resource title: take the buffer and store it.
pub open spec fn step_exit_resource_title_string(c: CtxV) -> CtxV {
    step_exit_definition_title_string(c)
}

fn on_exit_resource_title_string(context: &mut CompileContext)
    requires
        old(context)@.wf(),
    ensures
        final(context)@ == step_exit_resource_title_string(old(context)@),
        final(context)@.wf(),
{
    on_exit_definition_title_string(context);
}

/// Strong emphasis closes `</strong>`.
pub open spec fn step_exit_strong(c: CtxV) -> CtxV {
    c.tag_v("</strong>"@)
}

fn on_exit_strong(context: &mut CompileContext)
    requires
        old(context)@.wf(),
    ensures
        final(context)@ == step_exit_strong(old(context)@),
        final(context)@.wf(),
{
    context.tag("</strong>");
}

/// A thematic break becomes `<hr />` on a fresh line.
pub open spec fn step_exit_thematic_break(c: CtxV) -> CtxV {
    c.line_ending_if_needed_v().tag_v("<hr />"@)
}

fn on_exit_thematic_break(context: &mut CompileContext)
    requires
        old(context)@.wf(),
    ensures
        final(context)@ == step_exit_thematic_break(old(context)@),
        final(context)@.wf(),
{
    context.line_ending_if_needed();
    context.tag("<hr />");
}


/// The forward scan that decides whether a list is loose: walking the
/// events from the list's `Enter` with a nesting balance, a blank line
/// low in the list makes it loose — unless it sits right behind an item
/// marker, between items, or behind an empty item.
pub open spec fn spec_list_loose(events: Seq<Event>, tok: Token, i: int, balance: int) -> bool
    decreases events.len() - i,
    when 0 <= i
{
    if i >= events.len() {
        false
    } else {
        let ev = events[i];
        if ev.event_type == EventType::Enter {
            spec_list_loose(events, tok, i + 1, balance + 1)
        } else {
            let b = balance - 1;
            let blank_hit = b < 3 && ev.token_type == Token::BlankLineEnding && {
                let at_marker = b == 2 && i >= 2 && events[spec_skip_back(
                    events,
                    i - 2,
                    |t: Token| is_blank_or_space(t),
                )].token_type == Token::ListItemPrefix;
                let at_list_item = b == 1 && i >= 2 && events[i - 2].token_type == Token::ListItem;
                let at_empty_list_item = at_list_item && i >= 3 && {
                    let before_item = spec_skip_back(events, i - 2, |t: Token| is_list_item(t));
                    let before_prefix = spec_skip_back(
                        events,
                        i - 3,
                        |t: Token| is_prefix_or_space(t),
                    );
                    before_item + 1 == before_prefix
                };
                !at_marker && !at_list_item && !at_empty_list_item
            };
            if blank_hit {
                true
            } else if b == 0 && ev.token_type == tok {
                false
            } else {
                spec_list_loose(events, tok, i + 1, b)
            }
        }
    }
}

/// Opening a list: the lookahead decides tight or loose, the opening tag
/// stays unclosed for a possible `start` attribute.
pub open spec fn step_enter_list(c: CtxV) -> CtxV {
    let tok = c.events[c.index].token_type;
    let loose = spec_list_loose(c.events, tok, c.index, 0);
    let c1 = CtxV { tight_stack: c.tight_stack.push(!loose), ..c };
    let c2 = c1.line_ending_if_needed_v().tag_v(
        if tok == Token::ListOrdered {
            "<ol"@
        } else {
            "<ul"@
        },
    );
    CtxV { expect_first_item: Some(true), ..c2 }
}

#[verifier::rlimit(50)]
fn on_enter_list(context: &mut CompileContext)
    requires
        old(context)@.wf(),
        old(context)@.index < old(context)@.events.len(),
    ensures
        final(context)@ == step_enter_list(old(context)@),
        final(context)@.wf(),
{
    let events = context.events;
    let start = context.index;
    let token_type = events[start].token_type;
    let mut index = start;
    let mut balance: i128 = 0;
    let mut loose = false;
    let mut done = false;
    while !done && index < events.len()
        invariant
            *context == *old(context),
            events@ == old(context)@.events,
            token_type == events@[start as int].token_type,
            start == old(context)@.index,
            start <= index <= events@.len(),
            -((index - start) as int) <= balance as int <= (index - start) as int,
            !done ==> spec_list_loose(events@, token_type, start as int, 0) == spec_list_loose(
                events@,
                token_type,
                index as int,
                balance as int,
            ),
            done ==> loose == spec_list_loose(events@, token_type, start as int, 0),
            !done ==> !loose,
        decreases events@.len() - index, (if done { 0int } else { 1int }),
    {
        let ev = events[index];
        if matches!(ev.event_type, EventType::Enter) {
            balance = balance + 1;
            index += 1;
        } else {
            let b = balance - 1;
            let mut hit = false;
            if b < 3 && ev.token_type == Token::BlankLineEnding {
                let at_marker = b == 2 && index >= 2 && events[skip_back_blank_or_space(
                    events,
                    index - 2,
                )].token_type == Token::ListItemPrefix;
                let at_list_item = b == 1 && index >= 2 && events[index - 2].token_type
                    == Token::ListItem;
                let at_empty_list_item = if at_list_item && index >= 3 {
                    let before_item = skip_back_list_item(events, index - 2);
                    let before_prefix = skip_back_prefix_or_space(events, index - 3);
                    before_item + 1 == before_prefix
                } else {
                    false
                };
                if !at_marker && !at_list_item && !at_empty_list_item {
                    loose = true;
                    done = true;
                    hit = true;
                }
            }
            if !hit {
                if b == 0 && ev.token_type == token_type {
                    loose = false;
                    done = true;
                } else {
                    balance = b;
                    index += 1;
                }
            }
        }
    }
    let ghost c = old(context)@;
    proof {
        if !done {
            assert(index >= events@.len());
            assert(spec_list_loose(events@, token_type, index as int, balance as int) == false);
            assert(!loose);
        }
        assert(loose == spec_list_loose(c.events, token_type, c.index, 0));
    }
    context.tight_stack.push(!loose);
    context.line_ending_if_needed();
    if token_type == Token::ListOrdered {
        context.tag("<ol");
    } else {
        context.tag("<ul");
    }
    context.expect_first_item = Some(true);
    proof {
        assert(final(context)@ =~= step_enter_list(c));
    }
}

/// The first item marker closes the list's opening tag; every marker
/// opens `<li>` on a fresh line and clears the tag flag so that an empty
/// item stays on its line.
pub open spec fn step_enter_list_item_marker(c: CtxV) -> CtxV {
    match c.expect_first_item {
        None => c,
        Some(expect_first) => {
            let c1 = if expect_first {
                c.tag_v(">"@)
            } else {
                c
            };
            let c2 = c1.line_ending_if_needed_v().tag_v("<li>"@);
            CtxV { expect_first_item: Some(false), last_was_tag: false, ..c2 }
        },
    }
}

fn on_enter_list_item_marker(context: &mut CompileContext)
    requires
        old(context)@.wf(),
    ensures
        final(context)@ == step_enter_list_item_marker(old(context)@),
        final(context)@.wf(),
{
    let expect_first_item = match context.expect_first_item {
        Some(e) => e,
        None => {
            return ;
        },
    };
    if expect_first_item {
        context.tag(">");
    }
    context.line_ending_if_needed();
    context.tag("<li>");
    context.expect_first_item = Some(false);
    context.last_was_tag = false;
}

/// Closing a list: leave the list context, one line ending, the tag.
pub open spec fn step_exit_list(c: CtxV) -> CtxV {
    let ordered = c.events[c.index].token_type == Token::ListOrdered;
    let c1 = CtxV {
        tight_stack: if c.tight_stack.len() > 0 {
            c.tight_stack.drop_last()
        } else {
            c.tight_stack
        },
        ..c
    };
    c1.line_ending_v().tag_v(
        if ordered {
            "</ol>"@
        } else {
            "</ul>"@
        },
    )
}

fn on_exit_list(context: &mut CompileContext)
    requires
        old(context)@.wf(),
        old(context)@.index < old(context)@.events.len(),
    ensures
        final(context)@ == step_exit_list(old(context)@),
        final(context)@.wf(),
{
    let ordered = context.events[context.index].token_type == Token::ListOrdered;
    let _popped = context.tight_stack.pop();
    context.line_ending();
    if ordered {
        context.tag("</ol>");
    } else {
        context.tag("</ul>");
    }
}

/// Closing a list item: no extra line ending behind a tight paragraph or
/// an empty item, then `</li>`.
pub open spec fn step_exit_list_item(c: CtxV) -> CtxV {
    if c.index < 1 {
        c
    } else {
        let before = spec_skip_back(c.events, c.index - 1, |t: Token| is_item_gap(t));
        let previous = c.events[before].token_type;
        let tight_paragraph = c.tight_top() && previous == Token::Paragraph;
        let empty_item = previous == Token::ListItemPrefix;
        let c1 = CtxV { slurp_one_line_ending: false, ..c };
        let c2 = if !tight_paragraph && !empty_item {
            c1.line_ending_if_needed_v()
        } else {
            c1
        };
        c2.tag_v("</li>"@)
    }
}

fn on_exit_list_item(context: &mut CompileContext)
    requires
        old(context)@.wf(),
        old(context)@.index < old(context)@.events.len(),
    ensures
        final(context)@ == step_exit_list_item(old(context)@),
        final(context)@.wf(),
{
    if context.index < 1 {
        return ;
    }
    let tight = {
        let n = context.tight_stack.len();
        if n > 0 {
            context.tight_stack[n - 1]
        } else {
            false
        }
    };
    let before = skip_back_item_gap(context.events, context.index - 1);
    let previous = context.events[before].token_type;
    let tight_paragraph = tight && previous == Token::Paragraph;
    let empty_item = previous == Token::ListItemPrefix;
    context.slurp_one_line_ending = false;
    if !tight_paragraph && !empty_item {
        context.line_ending_if_needed();
    }
    context.tag("</li>");
}

/// An ordered list's first item value: a `start` attribute when it does
/// not start at one.
pub open spec fn step_exit_list_item_value(c: CtxV) -> CtxV {
    match c.expect_first_item {
        Some(expect) => {
            if expect {
                match span_text(c) {
                    Some(s) => match spec_parse_u32(s) {
                        Some(v) => {
                            if v != 1 {
                                c.tag_v(" start=\""@).tag_v(spec_dec(v)).tag_v("\""@)
                            } else {
                                c
                            }
                        },
                        None => c,
                    },
                    None => c,
                }
            } else {
                c
            }
        },
        None => c,
    }
}

fn on_exit_list_item_value(context: &mut CompileContext)
    requires
        old(context)@.wf(),
        old(context)@.index < old(context)@.events.len(),
    ensures
        final(context)@ == step_exit_list_item_value(old(context)@),
        final(context)@.wf(),
{
    let expect_first_item = match context.expect_first_item {
        Some(e) => e,
        None => {
            return ;
        },
    };
    if !expect_first_item {
        return ;
    }
    let t = exit_span_string(context.events, context.codes, context.index);
    let s = match t {
        Some(s) => s,
        None => {
            return ;
        },
    };
    let value = match parse_u32(s.as_str()) {
        Some(v) => v,
        None => {
            return ;
        },
    };
    if value != 1 {
        context.tag(" start=\"");
        let mut num = String::new();
        append_dec(&mut num, value as usize);
        context.tag(num.as_str());
        context.tag("\"");
        proof {
            assert(Seq::<char>::empty() + spec_dec(value as int) =~= spec_dec(value as int));
        }
    }
}

/// The identifier a link or image resolves with: the explicit reference
/// if there is one, else the label text, normalized.
pub open spec fn media_id(m: MediaV) -> Option<Seq<char>> {
    match m.reference_id {
        Some(r) => Some(normalized(r)),
        None => match m.label_id {
            Some(l) => Some(normalized(l)),
            None => None,
        },
    }
}

/// Closing a link or image. Inside an image only plain alt text may
/// appear, so structural tags are suppressed while any enclosing media
/// is an image. A media record carrying its own destination uses its own
/// destination and title; otherwise both come from the definition its
/// identifier resolves to.
pub open spec fn step_exit_media(c: CtxV) -> CtxV {
    if c.media_stack.len() == 0 {
        c
    } else {
        let media = c.media_stack.last();
        if media.label is None {
            c
        } else {
            let defn: Option<DefinitionV> = match media_id(media) {
                Some(id) => match find_def(c.definitions, id) {
                    Some(k) => Some(c.definitions[k]),
                    None => None,
                },
                None => None,
            };
            if media.destination is None && defn is None {
                c
            } else {
                let in_image = exists|j: int|
                    0 <= j < c.media_stack.len() - 1 && c.media_stack[j].image;
                let c1 = CtxV { tags: !in_image, media_stack: c.media_stack.drop_last(), ..c };
                let dst = if media.destination is Some {
                    media.destination
                } else {
                    defn->0.destination
                };
                let ttl = if media.destination is Some {
                    media.title
                } else {
                    defn->0.title
                };
                let destination = match dst {
                    Some(d) => d,
                    None => Seq::<char>::empty(),
                };
                let title_attr = match ttl {
                    Some(t) => " title=\""@ + t + "\""@,
                    None => Seq::<char>::empty(),
                };
                let label = media.label->0;
                if media.image {
                    c1.tag_v(
                        "<img src=\""@ + spec_sanitize(destination, c.protocol_src) + "\" alt=\""@,
                    ).push_v(label).tag_v("\""@ + title_attr + " />"@)
                } else {
                    c1.tag_v(
                        "<a href=\""@ + spec_sanitize(destination, c.protocol_href) + "\""@
                            + title_attr + ">"@,
                    ).push_v(label).tag_v("</a>"@)
                }
            }
        }
    }
}

#[verifier::rlimit(100)]
fn on_exit_media(context: &mut CompileContext)
    requires
        old(context)@.wf(),
    ensures
        final(context)@ == step_exit_media(old(context)@),
        final(context)@.wf(),
{
    let ghost c = old(context)@;
    let n = context.media_stack.len();
    if n == 0 {
        return ;
    }
    if context.media_stack[n - 1].label.is_none() {
        return ;
    }
    let id_opt: Option<String> = match &context.media_stack[n - 1].reference_id {
        Some(r) => Some(normalize_identifier(r.as_str())),
        None => match &context.media_stack[n - 1].label_id {
            Some(l) => Some(normalize_identifier(l.as_str())),
            None => None,
        },
    };
    proof {
        assert(match id_opt {
            Some(s) => media_id(c.media_stack.last()) == Some(s@),
            None => media_id(c.media_stack.last()) is None,
        });
    }
    let mut def_idx: Option<usize> = None;
    match &id_opt {
        Some(id) => {
            let ghost defs = c.definitions;
            let mut k: usize = 0;
            let mut found = false;
            while !found && k < context.definitions.len()
                invariant
                    context@ == c,
                    defs == c.definitions,
                    k <= defs.len(),
                    !found ==> def_idx is None,
                    !found ==> forall|j: int| 0 <= j < k ==> defs[j].id != id@,
                    found ==> k < defs.len() && def_idx == Some(k) && find_def(defs, id@)
                        == Some(k as int),
                decreases defs.len() - k, (if found { 0int } else { 1int }),
            {
                proof {
                    assert(defs[k as int] == context.definitions@[k as int]@);
                }
                if str_eq(context.definitions[k].id.as_str(), id.as_str()) {
                    proof {
                        lemma_find_def_hit(defs, id@, k as int);
                    }
                    found = true;
                    def_idx = Some(k);
                } else {
                    k += 1;
                }
            }
            proof {
                if !found {
                    lemma_find_def_none(defs, id@, 0);
                }
            }
        },
        None => {},
    }
    proof {
        assert(match def_idx {
            Some(k) => find_def(c.definitions, media_id(c.media_stack.last())->0) == Some(k as int),
            None => (match media_id(c.media_stack.last()) {
                Some(id) => find_def(c.definitions, id) is None,
                None => true,
            }),
        });
    }
    let has_dest = context.media_stack[n - 1].destination.is_some();
    if !has_dest && def_idx.is_none() {
        return ;
    }
    let mut is_in_image = false;
    let mut i: usize = 0;
    while i < n - 1
        invariant
            context@ == c,
            n == context.media_stack.len(),
            i <= n - 1,
            is_in_image == (exists|j: int| 0 <= j < i && c.media_stack[j].image),
        decreases n - 1 - i,
    {
        let im = context.media_stack[i].image;
        proof {
            assert(c.media_stack[i as int] == context.media_stack@[i as int]@);
            assert(c.media_stack[i as int].image == im);
        }
        if im {
            is_in_image = true;
        }
        i += 1;
    }
    proof {
        assert(n - 1 == c.media_stack.len() - 1);
    }
    context.tags = !is_in_image;
    let media = match context.media_stack.pop() {
        Some(m) => m,
        None => {
            return ;
        },
    };
    proof {
        assert(context.media_stack@.map_values(|m: Media| m@) =~= c.media_stack.drop_last());
        assert(context@ =~= (CtxV {
            tags: !is_in_image,
            media_stack: c.media_stack.drop_last(),
            ..c
        }));
    }
    let dest_string: String = if media.destination.is_some() {
        match &media.destination {
            Some(d) => d.clone(),
            None => String::new(),
        }
    } else {
        match def_idx {
            Some(k) => match &context.definitions[k].destination {
                Some(d) => d.clone(),
                None => String::new(),
            },
            None => String::new(),
        }
    };
    let title_opt: Option<String> = if media.destination.is_some() {
        match &media.title {
            Some(t) => Some(t.clone()),
            None => None,
        }
    } else {
        match def_idx {
            Some(k) => match &context.definitions[k].title {
                Some(t) => Some(t.clone()),
                None => None,
            },
            None => None,
        }
    };
    let title_attr: String = match &title_opt {
        Some(t) => {
            let mut a = String::from_str(" title=\"");
            a.append(t.as_str());
            a.append("\"");
            a
        },
        None => String::new(),
    };
    let label: String = match &media.label {
        Some(l) => l.clone(),
        None => String::new(),
    };
    if media.image {
        let src = sanitize_uri(dest_string.as_str(), &context.protocol_src);
        let mut t1 = String::from_str("<img src=\"");
        t1.append(src.as_str());
        t1.append("\" alt=\"");
        context.tag(t1.as_str());
        context.push(label.as_str());
        let mut t2 = String::from_str("\"");
        t2.append(title_attr.as_str());
        t2.append(" />");
        context.tag(t2.as_str());
    } else {
        let href = sanitize_uri(dest_string.as_str(), &context.protocol_href);
        let mut t1 = String::from_str("<a href=\"");
        t1.append(href.as_str());
        t1.append("\"");
        t1.append(title_attr.as_str());
        t1.append(">");
        context.tag(t1.as_str());
        context.push(label.as_str());
        context.tag("</a>");
    }
    proof {
        assert(final(context)@ =~= step_exit_media(c));
    }
}


/// What handling an `Enter` event does: the switch is closed, unlisted
/// kinds are no-ops.
#[verifier::opaque]
pub open spec fn spec_enter(c: CtxV) -> CtxV {
    match c.events[c.index].token_type {
        Token::CodeFencedFenceInfo => step_enter_buffer(c),
        Token::CodeFencedFenceMeta => step_enter_buffer(c),
        Token::DefinitionLabelString => step_enter_buffer(c),
        Token::DefinitionTitleString => step_enter_buffer(c),
        Token::HeadingAtxText => step_enter_buffer(c),
        Token::HeadingSetextText => step_enter_buffer(c),
        Token::Label => step_enter_buffer(c),
        Token::ReferenceString => step_enter_buffer(c),
        Token::ResourceTitleString => step_enter_buffer(c),
        Token::BlockQuote => step_enter_block_quote(c),
        Token::CodeIndented => step_enter_code_indented(c),
        Token::CodeFenced => step_enter_code_fenced(c),
        Token::CodeText => step_enter_code_text(c),
        Token::Definition => step_enter_definition(c),
        Token::DefinitionDestinationString => step_enter_definition_destination_string(c),
        Token::Emphasis => step_enter_emphasis(c),
        Token::HtmlFlow => step_enter_html_flow(c),
        Token::HtmlText => step_enter_html_text(c),
        Token::Image => step_enter_image(c),
        Token::Link => step_enter_link(c),
        Token::ListItemMarker => step_enter_list_item_marker(c),
        Token::ListOrdered => step_enter_list(c),
        Token::ListUnordered => step_enter_list(c),
        Token::Paragraph => step_enter_paragraph(c),
        Token::Resource => step_enter_resource(c),
        Token::ResourceDestinationString => step_enter_resource_destination_string(c),
        Token::Strong => step_enter_strong(c),
        _ => c,
    }
}

/// Handle an `Enter` event.
#[verifier::rlimit(100)]
#[verifier::spinoff_prover]
fn enter(context: &mut CompileContext)
    requires
        old(context)@.wf(),
        old(context)@.index < old(context)@.events.len(),
    ensures
        final(context)@ == spec_enter(old(context)@),
        final(context)@.wf(),
        final(context)@.events == old(context)@.events,
        final(context)@.codes == old(context)@.codes,
{
    proof {
        reveal(spec_enter);
    }
    match context.events[context.index].token_type {
        Token::CodeFencedFenceInfo
        | Token::CodeFencedFenceMeta
        | Token::DefinitionLabelString
        | Token::DefinitionTitleString
        | Token::HeadingAtxText
        | Token::HeadingSetextText
        | Token::Label
        | Token::ReferenceString
        | Token::ResourceTitleString => on_enter_buffer(context),
        Token::BlockQuote => on_enter_block_quote(context),
        Token::CodeIndented => on_enter_code_indented(context),
        Token::CodeFenced => on_enter_code_fenced(context),
        Token::CodeText => on_enter_code_text(context),
        Token::Definition => on_enter_definition(context),
        Token::DefinitionDestinationString => on_enter_definition_destination_string(context),
        Token::Emphasis => on_enter_emphasis(context),
        Token::HtmlFlow => on_enter_html_flow(context),
        Token::HtmlText => on_enter_html_text(context),
        Token::Image => on_enter_image(context),
        Token::Link => on_enter_link(context),
        Token::ListItemMarker => on_enter_list_item_marker(context),
        Token::ListOrdered | Token::ListUnordered => on_enter_list(context),
        Token::Paragraph => on_enter_paragraph(context),
        Token::Resource => on_enter_resource(context),
        Token::ResourceDestinationString => on_enter_resource_destination_string(context),
        Token::Strong => on_enter_strong(context),
        _ => {},
    }
}

/// What handling an `Exit` event does: the switch is closed, unlisted
/// kinds are no-ops.
#[verifier::opaque]
pub open spec fn spec_exit(c: CtxV) -> CtxV {
    match c.events[c.index].token_type {
        Token::CodeFencedFenceMeta => step_exit_drop(c),
        Token::Resource => step_exit_drop(c),
        Token::CharacterEscapeValue => step_exit_data(c),
        Token::CodeTextData => step_exit_data(c),
        Token::Data => step_exit_data(c),
        Token::AutolinkEmail => step_exit_autolink_email(c),
        Token::AutolinkProtocol => step_exit_autolink_protocol(c),
        Token::BlankLineEnding => step_exit_blank_line_ending(c),
        Token::BlockQuote => step_exit_block_quote(c),
        Token::CharacterReferenceMarker => step_exit_character_reference_marker(c),
        Token::CharacterReferenceMarkerNumeric => step_exit_character_reference_marker_numeric(c),
        Token::CharacterReferenceMarkerHexadecimal => step_exit_character_reference_marker_hexadecimal(
            c,
        ),
        Token::CharacterReferenceValue => step_exit_character_reference_value(c),
        Token::CodeFenced => step_exit_code_flow(c),
        Token::CodeIndented => step_exit_code_flow(c),
        Token::CodeFencedFence => step_exit_code_fenced_fence(c),
        Token::CodeFencedFenceInfo => step_exit_code_fenced_fence_info(c),
        Token::CodeFlowChunk => step_exit_code_flow_chunk(c),
        Token::CodeText => step_exit_code_text(c),
        Token::Definition => step_exit_definition(c),
        Token::DefinitionDestinationString => step_exit_definition_destination_string(c),
        Token::DefinitionLabelString => step_exit_definition_label_string(c),
        Token::DefinitionTitleString => step_exit_definition_title_string(c),
        Token::Emphasis => step_exit_emphasis(c),
        Token::HardBreakEscape => step_exit_break(c),
        Token::HardBreakTrailing => step_exit_break(c),
        Token::HeadingAtx => step_exit_heading_atx(c),
        Token::HeadingAtxSequence => step_exit_heading_atx_sequence(c),
        Token::HeadingAtxText => step_exit_heading_atx_text(c),
        Token::HeadingSetextText => step_exit_heading_setext_text(c),
        Token::HeadingSetextUnderline => step_exit_heading_setext_underline(c),
        Token::HtmlFlow => step_exit_html(c),
        Token::HtmlText => step_exit_html(c),
        Token::HtmlFlowData => step_exit_data(c),
        Token::HtmlTextData => step_exit_data(c),
        Token::Image => step_exit_media(c),
        Token::Link => step_exit_media(c),
        Token::Label => step_exit_label(c),
        Token::LabelText => step_exit_label_text(c),
        Token::LineEnding => step_exit_line_ending(c),
        Token::ListOrdered => step_exit_list(c),
        Token::ListUnordered => step_exit_list(c),
        Token::ListItem => step_exit_list_item(c),
        Token::ListItemValue => step_exit_list_item_value(c),
        Token::Paragraph => step_exit_paragraph(c),
        Token::ReferenceString => step_exit_reference_string(c),
        Token::ResourceDestinationString => step_exit_resource_destination_string(c),
        Token::ResourceTitleString => step_exit_resource_title_string(c),
        Token::Strong => step_exit_strong(c),
        Token::ThematicBreak => step_exit_thematic_break(c),
        _ => c,
    }
}

/// Handle an `Exit` event.
#[verifier::rlimit(100)]
#[verifier::spinoff_prover]
fn exit(context: &mut CompileContext)
    requires
        old(context)@.wf(),
        old(context)@.index < old(context)@.events.len(),
    ensures
        final(context)@ == spec_exit(old(context)@),
        final(context)@.wf(),
        final(context)@.events == old(context)@.events,
        final(context)@.codes == old(context)@.codes,
{
    proof {
        reveal(spec_exit);
    }
    match context.events[context.index].token_type {
        Token::CodeFencedFenceMeta | Token::Resource => on_exit_drop(context),
        Token::CharacterEscapeValue | Token::CodeTextData | Token::Data => on_exit_data(context),
        Token::AutolinkEmail => on_exit_autolink_email(context),
        Token::AutolinkProtocol => on_exit_autolink_protocol(context),
        Token::BlankLineEnding => on_exit_blank_line_ending(context),
        Token::BlockQuote => on_exit_block_quote(context),
        Token::CharacterReferenceMarker => on_exit_character_reference_marker(context),
        Token::CharacterReferenceMarkerNumeric => {
            on_exit_character_reference_marker_numeric(context);
        },
        Token::CharacterReferenceMarkerHexadecimal => {
            on_exit_character_reference_marker_hexadecimal(context);
        },
        Token::CharacterReferenceValue => on_exit_character_reference_value(context),
        Token::CodeFenced | Token::CodeIndented => on_exit_code_flow(context),
        Token::CodeFencedFence => on_exit_code_fenced_fence(context),
        Token::CodeFencedFenceInfo => on_exit_code_fenced_fence_info(context),
        Token::CodeFlowChunk => on_exit_code_flow_chunk(context),
        Token::CodeText => on_exit_code_text(context),
        Token::Definition => on_exit_definition(context),
        Token::DefinitionDestinationString => on_exit_definition_destination_string(context),
        Token::DefinitionLabelString => on_exit_definition_label_string(context),
        Token::DefinitionTitleString => on_exit_definition_title_string(context),
        Token::Emphasis => on_exit_emphasis(context),
        Token::HardBreakEscape | Token::HardBreakTrailing => on_exit_break(context),
        Token::HeadingAtx => on_exit_heading_atx(context),
        Token::HeadingAtxSequence => on_exit_heading_atx_sequence(context),
        Token::HeadingAtxText => on_exit_heading_atx_text(context),
        Token::HeadingSetextText => on_exit_heading_setext_text(context),
        Token::HeadingSetextUnderline => on_exit_heading_setext_underline(context),
        Token::HtmlFlow | Token::HtmlText => on_exit_html(context),
        Token::HtmlFlowData | Token::HtmlTextData => on_exit_html_data(context),
        Token::Image | Token::Link => on_exit_media(context),
        Token::Label => on_exit_label(context),
        Token::LabelText => on_exit_label_text(context),
        Token::LineEnding => on_exit_line_ending(context),
        Token::ListOrdered | Token::ListUnordered => on_exit_list(context),
        Token::ListItem => on_exit_list_item(context),
        Token::ListItemValue => on_exit_list_item_value(context),
        Token::Paragraph => on_exit_paragraph(context),
        Token::ReferenceString => on_exit_reference_string(context),
        Token::ResourceDestinationString => on_exit_resource_destination_string(context),
        Token::ResourceTitleString => on_exit_resource_title_string(context),
        Token::Strong => on_exit_strong(context),
        Token::ThematicBreak => on_exit_thematic_break(context),
        _ => {},
    }
}

/// What handling the event at `i` does: point the context there, then
/// dispatch on the phase.
pub open spec fn spec_handle(c: CtxV, i: int) -> CtxV {
    let c1 = CtxV { index: i, ..c };
    if c.events[i].event_type == EventType::Enter {
        spec_enter(c1)
    } else {
        spec_exit(c1)
    }
}

/// Handle one event.
fn handle(context: &mut CompileContext, index: usize)
    requires
        old(context)@.wf(),
        index < old(context)@.events.len(),
    ensures
        final(context)@ == spec_handle(old(context)@, index as int),
        final(context)@.wf(),
        final(context)@.events == old(context)@.events,
        final(context)@.codes == old(context)@.codes,
{
    context.index = index;
    if matches!(context.events[index].event_type, EventType::Enter) {
        enter(context);
    } else {
        exit(context);
    }
}

/// The line ending inferred from the first line-ending exit whose span
/// is well formed; none when the input has no line ending.
pub open spec fn spec_infer_eol(events: Seq<Event>, codes: Seq<Code>, i: int) -> Option<LineEnding>
    decreases events.len() - i,
    when 0 <= i
{
    if i >= events.len() {
        None
    } else {
        let ev = events[i];
        if ev.event_type == EventType::Exit && (ev.token_type == Token::BlankLineEnding
            || ev.token_type == Token::LineEnding) {
            match spec_span_of(events, i) {
                Some(sp) => {
                    if sp.start_index < sp.end_index && sp.start_index < codes.len() {
                        Some(LineEnding::spec_from_code(codes[sp.start_index as int]))
                    } else {
                        spec_infer_eol(events, codes, i + 1)
                    }
                },
                None => spec_infer_eol(events, codes, i + 1),
            }
        } else {
            spec_infer_eol(events, codes, i + 1)
        }
    }
}

/// One step of the definition pre-pass: inside a definition every event
/// is handled; a definition's `Enter` starts a range and its `Exit`
/// closes it.
pub open spec fn spec_prepass(
    events: Seq<Event>,
    c: CtxV,
    i: int,
    inside: bool,
    ranges: Seq<(usize, usize)>,
) -> (CtxV, bool, Seq<(usize, usize)>)
    decreases events.len() - i,
    when 0 <= i
{
    if i >= events.len() {
        (c, inside, ranges)
    } else {
        let ev = events[i];
        let c1 = if inside {
            spec_handle(c, i)
        } else {
            c
        };
        if ev.token_type == Token::Definition {
            if ev.event_type == EventType::Enter {
                let c2 = spec_handle(c1, i);
                spec_prepass(events, c2, i + 1, true, ranges.push((i as usize, i as usize)))
            } else {
                let r2 = if ranges.len() > 0 {
                    ranges.update(ranges.len() - 1, (ranges.last().0, i as usize))
                } else {
                    ranges
                };
                spec_prepass(events, c1, i + 1, false, r2)
            }
        } else {
            spec_prepass(events, c1, i + 1, inside, ranges)
        }
    }
}

/// One step of the main pass: at the start of a pre-recorded definition
/// range, jump past it and swallow the next line ending; everywhere
/// else, handle the event.
pub open spec fn spec_main_pass(
    events: Seq<Event>,
    c: CtxV,
    i: int,
    ranges: Seq<(usize, usize)>,
    di: int,
) -> CtxV
    decreases events.len() - i,
    when 0 <= i
{
    if i >= events.len() {
        c
    } else if 0 <= di < ranges.len() && i == ranges[di].0 {
        let e = ranges[di].1 as int;
        let next = if e >= i && e < events.len() {
            e + 1
        } else {
            i + 1
        };
        spec_main_pass(
            events,
            CtxV { slurp_one_line_ending: true, ..c },
            next,
            ranges,
            di + 1,
        )
    } else {
        spec_main_pass(events, spec_handle(c, i), i + 1, ranges, di)
    }
}

/// The buffers of a context, joined bottom to top.
pub open spec fn concat_bufs(bufs: Seq<Seq<char>>) -> Seq<char>
    decreases bufs.len(),
{
    if bufs.len() == 0 {
        Seq::empty()
    } else {
        concat_bufs(bufs.drop_last()) + bufs.last()
    }
}

/// The context a compilation ends in, before the result is taken.
pub open spec fn spec_final_context(events: Seq<Event>, codes: Seq<Code>, options: Options) -> CtxV {
    let eol = match spec_infer_eol(events, codes, 0) {
        Some(le) => le,
        None => options.default_line_ending,
    };
    let c0 = initial_context(events, codes, options, eol);
    let (c1, _inside, ranges) = spec_prepass(events, c0, 0, false, Seq::empty());
    spec_main_pass(events, c1, 0, ranges, 0)
}

/// The HTML a compilation produces: everything the buffers hold at the
/// end, joined. On well-nested input one buffer remains and this is
/// exactly its content.
pub open spec fn spec_compile(events: Seq<Event>, codes: Seq<Code>, options: Options) -> Seq<char> {
    concat_bufs(spec_final_context(events, codes, options).buffers)
}

/// Turn events and codes into a string of HTML.
#[verifier::rlimit(100)]
pub fn compile(events: &[Event], codes: &[Code], options: &Options) -> (r: String)
    ensures
        r@ == spec_compile(events@, codes@, *options),
{
    // First, figure out the line ending style the input uses.
    let mut index: usize = 0;
    let mut line_ending_inferred: Option<LineEnding> = None;
    while index < events.len()
        invariant_except_break
            index <= events@.len(),
            line_ending_inferred is None,
            spec_infer_eol(events@, codes@, 0) == spec_infer_eol(events@, codes@, index as int),
        ensures
            match line_ending_inferred {
                Some(le) => spec_infer_eol(events@, codes@, 0) == Some(le),
                None => spec_infer_eol(events@, codes@, 0) is None,
            },
        decreases events@.len() - index,
    {
        let event = &events[index];
        if matches!(event.event_type, EventType::Exit) && (event.token_type
            == Token::BlankLineEnding || event.token_type == Token::LineEnding) {
            match from_exit_event(events, index) {
                Some(sp) => {
                    if sp.start_index < sp.end_index && sp.start_index < codes.len() {
                        line_ending_inferred = Some(LineEnding::from_code(codes[sp.start_index]));
                        break ;
                    }
                },
                None => {},
            }
        }
        index += 1;
    }
    let line_ending_default = match line_ending_inferred {
        Some(le) => le,
        None => options.default_line_ending,
    };
    let mut context = CompileContext::new(events, codes, options, line_ending_default);
    let ghost c0 = context@;
    let ghost prepass_result = spec_prepass(events@, c0, 0, false, Seq::empty());

    // Handle all definitions first: references may stand before the
    // definitions that resolve them. The ranges collected here are
    // skipped in the second pass.
    let mut definition_indices: Vec<(usize, usize)> = Vec::new();
    let mut i: usize = 0;
    let mut definition_inside = false;
    while i < events.len()
        invariant
            i <= events@.len(),
            context@.wf(),
            context@.events == events@,
            context@.codes == codes@,
            spec_prepass(events@, context@, i as int, definition_inside, definition_indices@)
                == prepass_result,
        decreases events@.len() - i,
    {
        let event = &events[i];
        if definition_inside {
            handle(&mut context, i);
        }
        if event.token_type == Token::Definition {
            if matches!(event.event_type, EventType::Enter) {
                handle(&mut context, i);
                definition_inside = true;
                definition_indices.push((i, i));
            } else {
                definition_inside = false;
                let m = definition_indices.len();
                if m > 0 {
                    let start = definition_indices[m - 1].0;
                    definition_indices.set(m - 1, (start, i));
                }
            }
        }
        proof {
            assert(context@.events == events@);
        }
        i += 1;
    }
    let ghost c1 = prepass_result.0;
    let ghost ranges = prepass_result.2;
    proof {
        assert(context@ == c1);
        assert(definition_indices@ == ranges);
    }

    // Second pass: emit, jumping over the definitions.
    let mut index: usize = 0;
    let mut definition_index: usize = 0;
    while index < events.len()
        invariant
            context@.wf(),
            context@.events == events@,
            context@.codes == codes@,
            spec_main_pass(events@, context@, index as int, ranges, definition_index as int)
                == spec_main_pass(events@, c1, 0, ranges, 0),
            definition_indices@ == ranges,
        decreases events@.len() - index,
    {
        if definition_index < definition_indices.len() && index
            == definition_indices[definition_index].0 {
            let e = definition_indices[definition_index].1;
            index = if e >= index && e < events.len() {
                e + 1
            } else {
                index + 1
            };
            definition_index += 1;
            context.slurp_one_line_ending = true;
        } else {
            handle(&mut context, index);
            index += 1;
        }
    }

    // One buffer must remain: every construct that opened one closed it.
    while context.buffers.len() > 1
        invariant
            context@.wf(),
            concat_bufs(context@.buffers) == concat_bufs(
                spec_main_pass(events@, c1, 0, ranges, 0).buffers,
            ),
        decreases context@.buffers.len(),
    {
        let ghost pre = context@.buffers;
        let top = match context.buffers.pop() {
            Some(t) => t,
            None => String::new(),
        };
        let m = context.buffers.len();
        let b = &mut context.buffers[m - 1];
        b.append(top.as_str());
        proof {
            assert(context.buffers@.map_values(|s: String| s@) =~= pre.drop_last().update(
                pre.drop_last().len() - 1,
                pre.drop_last().last() + pre.last(),
            ));
            lemma_concat_bufs_merge(pre);
        }
    }
    assert(context.buffers.len() == 1);
    let ghost pre = context@.buffers;
    let result = match context.buffers.pop() {
        Some(s) => s,
        None => String::new(),
    };
    proof {
        assert(result@ == pre.last());
        assert(pre.drop_last().len() == 0);
        assert(concat_bufs(pre) == concat_bufs(pre.drop_last()) + pre.last());
        assert(concat_bufs(pre.drop_last()) == Seq::<char>::empty());
        assert(Seq::<char>::empty() + pre.last() =~= pre.last());
    }
    result
}

/// Merging the top buffer into the one below keeps the joined content.
proof fn lemma_concat_bufs_merge(bufs: Seq<Seq<char>>)
    requires
        bufs.len() >= 2,
    ensures
        concat_bufs(
            bufs.drop_last().update(
                bufs.drop_last().len() - 1,
                bufs.drop_last().last() + bufs.last(),
            ),
        ) == concat_bufs(bufs),
{
    let rest = bufs.drop_last();
    let merged = rest.update(rest.len() - 1, rest.last() + bufs.last());
    assert(merged.drop_last() =~= rest.drop_last());
    assert(merged.last() == rest.last() + bufs.last());
    assert(concat_bufs(merged) == concat_bufs(merged.drop_last()) + merged.last());
    assert(concat_bufs(merged) == concat_bufs(rest.drop_last()) + (rest.last() + bufs.last()));
    assert(concat_bufs(bufs) == concat_bufs(rest) + bufs.last());
    assert(concat_bufs(rest) == concat_bufs(rest.drop_last()) + rest.last());
    assert(concat_bufs(rest.drop_last()) + (rest.last() + bufs.last()) =~= (concat_bufs(
        rest.drop_last(),
    ) + rest.last()) + bufs.last());
}


/// Filing another definition never changes what an already-defined
/// identifier resolves to: the first definition wins.
pub proof fn lemma_definition_first_wins(c: CtxV, q: Seq<char>)
    requires
        find_def(c.definitions, q) is Some,
    ensures
        ({
            let c2 = step_exit_definition(c);
            find_def(c2.definitions, q) == find_def(c.definitions, q)
                && c2.definitions[find_def(c.definitions, q)->0] == c.definitions[find_def(
                c.definitions,
                q,
            )->0]
        }),
{
    let c2 = step_exit_definition(c);
    if c.media_stack.len() > 0 && c.buffers.len() >= 2 && c.media_stack.last().reference_id
        is Some {
        let media = c.media_stack.last();
        let id = normalized(media.reference_id->0);
        if find_def(c.definitions, id) is None {
            let d = DefinitionV { id: id, destination: media.destination, title: media.title };
            lemma_find_def_push(c.definitions, d, q, 0);
            let k = find_def(c.definitions, q)->0;
            lemma_find_def_in_range(c.definitions, q, 0);
            assert(c.definitions.push(d)[k] == c.definitions[k]);
        }
    }
}

/// Appending a definition keeps every earlier resolution.
proof fn lemma_find_def_push(defs: Seq<DefinitionV>, d: DefinitionV, q: Seq<char>, i: int)
    requires
        0 <= i,
        find_def_from(defs, q, i) is Some,
    ensures
        find_def_from(defs.push(d), q, i) == find_def_from(defs, q, i),
    decreases defs.len() - i,
{
    if i < defs.len() {
        assert(defs.push(d)[i] == defs[i]);
        if defs[i].id == q {
        } else {
            lemma_find_def_push(defs, d, q, i + 1);
        }
    }
}

/// A resolution points inside the list.
proof fn lemma_find_def_in_range(defs: Seq<DefinitionV>, q: Seq<char>, i: int)
    requires
        0 <= i,
        find_def_from(defs, q, i) is Some,
    ensures
        i <= find_def_from(defs, q, i)->0 < defs.len(),
    decreases defs.len() - i,
{
    if i < defs.len() && defs[i].id != q {
        lemma_find_def_in_range(defs, q, i + 1);
    }
}

/// Tight lists suppress paragraph tags: in a tight list context a
/// paragraph writes nothing on entry and nothing on exit; in a loose
/// context, with tags on, it closes with exactly `</p>`.
pub proof fn lemma_tight_paragraph_suppressed(c: CtxV)
    requires
        c.wf(),
    ensures
        c.tight_top() ==> step_enter_paragraph(c).buffers == c.buffers,
        c.tight_top() ==> step_exit_paragraph(c).buffers == c.buffers,
        !c.tight_top() && c.tags ==> step_exit_paragraph(c).top() == c.top() + "</p>"@,
{
    if !c.tight_top() && c.tags {
        assert(step_exit_paragraph(c).buffers == c.buffers.update(
            c.buffers.len() - 1,
            c.buffers.last() + "</p>"@,
        ));
    }
}

/// Inside an image no anchor appears: when an enclosing media record is
/// an image, closing a link appends exactly its label text to the
/// output — no `<a>` or `</a>`.
pub proof fn lemma_image_strips_anchors(c: CtxV)
    requires
        c.wf(),
        c.media_stack.len() >= 1,
        exists|j: int| 0 <= j < c.media_stack.len() - 1 && c.media_stack[j].image,
        c.media_stack.last().label is Some,
        c.media_stack.last().destination is Some,
        !c.media_stack.last().image,
    ensures
        step_exit_media(c).top() == c.top() + c.media_stack.last().label->0,
{
    let media = c.media_stack.last();
    let in_image = exists|j: int| 0 <= j < c.media_stack.len() - 1 && c.media_stack[j].image;
    assert(in_image);
    let c1 = CtxV { tags: false, media_stack: c.media_stack.drop_last(), ..c };
    let label = media.label->0;
    let c2 = c1.push_v(label);
    assert(step_exit_media(c).buffers == c2.buffers);
    assert(c2.top() == c.top() + label);
}

/// Line endings do not pile up at block boundaries: when the output
/// already ends in one, asking for another changes nothing.
pub proof fn lemma_line_ending_not_repeated(c: CtxV)
    requires
        c.wf(),
        c.top().len() > 0 ==> (c.top().last() == '\n' || c.top().last() == '\r'),
    ensures
        c.line_ending_if_needed_v() == c,
{
}


} // verus!

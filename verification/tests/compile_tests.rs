use mdhtml::compiler::compile;
use mdhtml::event::{Code, Event, EventType, LineEnding, Options, Token};

fn codes_of(s: &str) -> Vec<Code> {
    s.chars()
        .map(|c| if c == '\n' { Code::LineFeed } else { Code::Char(c) })
        .collect()
}

fn en(t: Token, i: usize) -> Event {
    Event { event_type: EventType::Enter, token_type: t, index: i }
}

fn ex(t: Token, i: usize) -> Event {
    Event { event_type: EventType::Exit, token_type: t, index: i }
}

fn opts() -> Options {
    Options {
        allow_dangerous_html: false,
        allow_dangerous_protocol: false,
        default_line_ending: LineEnding::LineFeed,
    }
}

#[test]
fn atx_heading() {
    let codes = codes_of("# Hi\n");
    let events = vec![
        en(Token::HeadingAtx, 0),
        en(Token::HeadingAtxSequence, 0),
        ex(Token::HeadingAtxSequence, 1),
        en(Token::SpaceOrTab, 1),
        ex(Token::SpaceOrTab, 2),
        en(Token::HeadingAtxText, 2),
        en(Token::Data, 2),
        ex(Token::Data, 4),
        ex(Token::HeadingAtxText, 4),
        ex(Token::HeadingAtx, 4),
        en(Token::LineEnding, 4),
        ex(Token::LineEnding, 5),
    ];
    assert_eq!(compile(&events, &codes, &opts()), "<h1>Hi</h1>\n");
}

#[test]
fn two_paragraphs() {
    let codes = codes_of("a\n\nb\n");
    let events = vec![
        en(Token::Paragraph, 0),
        en(Token::Data, 0),
        ex(Token::Data, 1),
        ex(Token::Paragraph, 1),
        en(Token::LineEnding, 1),
        ex(Token::LineEnding, 2),
        en(Token::BlankLineEnding, 2),
        ex(Token::BlankLineEnding, 3),
        en(Token::Paragraph, 3),
        en(Token::Data, 3),
        ex(Token::Data, 4),
        ex(Token::Paragraph, 4),
    ];
    assert_eq!(compile(&events, &codes, &opts()), "<p>a</p>\n<p>b</p>");
}

fn list_item(events: &mut Vec<Event>, marker: usize, text: usize) {
    events.push(en(Token::ListItem, marker));
    events.push(en(Token::ListItemPrefix, marker));
    events.push(en(Token::ListItemMarker, marker));
    events.push(ex(Token::ListItemMarker, marker + 1));
    events.push(en(Token::SpaceOrTab, marker + 1));
    events.push(ex(Token::SpaceOrTab, marker + 2));
    events.push(ex(Token::ListItemPrefix, marker + 2));
    events.push(en(Token::Paragraph, text));
    events.push(en(Token::Data, text));
    events.push(ex(Token::Data, text + 1));
    events.push(ex(Token::Paragraph, text + 1));
    events.push(en(Token::LineEnding, text + 1));
    events.push(ex(Token::LineEnding, text + 2));
}

#[test]
fn tight_list() {
    let codes = codes_of("* a\n* b\n");
    let mut events = vec![en(Token::ListUnordered, 0)];
    list_item(&mut events, 0, 2);
    events.push(ex(Token::ListItem, 4));
    list_item(&mut events, 4, 6);
    events.push(ex(Token::ListItem, 8));
    events.push(ex(Token::ListUnordered, 8));
    assert_eq!(
        compile(&events, &codes, &opts()),
        "<ul>\n<li>a</li>\n<li>b</li>\n</ul>"
    );
}

#[test]
fn loose_list() {
    let codes = codes_of("* a\n\n* b\n");
    let mut events = vec![en(Token::ListUnordered, 0)];
    list_item(&mut events, 0, 2);
    events.push(en(Token::BlankLineEnding, 4));
    events.push(ex(Token::BlankLineEnding, 5));
    events.push(ex(Token::ListItem, 5));
    list_item(&mut events, 5, 7);
    events.push(ex(Token::ListItem, 9));
    events.push(ex(Token::ListUnordered, 9));
    assert_eq!(
        compile(&events, &codes, &opts()),
        "<ul>\n<li>\n<p>a</p>\n</li>\n<li>\n<p>b</p>\n</li>\n</ul>"
    );
}

#[test]
fn full_reference_with_definition() {
    let codes = codes_of("[x][y]\n\n[y]: /u \"t\"\n");
    let events = vec![
        en(Token::Paragraph, 0),
        en(Token::Link, 0),
        en(Token::Label, 0),
        en(Token::LabelText, 1),
        en(Token::Data, 1),
        ex(Token::Data, 2),
        ex(Token::LabelText, 2),
        ex(Token::Label, 3),
        en(Token::Reference, 3),
        en(Token::ReferenceString, 4),
        ex(Token::ReferenceString, 5),
        ex(Token::Reference, 6),
        ex(Token::Link, 6),
        ex(Token::Paragraph, 6),
        en(Token::Definition, 8),
        en(Token::DefinitionLabelString, 9),
        ex(Token::DefinitionLabelString, 10),
        en(Token::DefinitionDestinationString, 13),
        en(Token::Data, 13),
        ex(Token::Data, 15),
        ex(Token::DefinitionDestinationString, 15),
        en(Token::DefinitionTitleString, 17),
        en(Token::Data, 17),
        ex(Token::Data, 18),
        ex(Token::DefinitionTitleString, 18),
        ex(Token::Definition, 19),
        en(Token::LineEnding, 19),
        ex(Token::LineEnding, 20),
    ];
    assert_eq!(
        compile(&events, &codes, &opts()),
        "<p><a href=\"/u\" title=\"t\">x</a></p>"
    );
}

fn image_events(codes_len: usize) -> Vec<Event> {
    vec![
        en(Token::Paragraph, 0),
        en(Token::Image, 0),
        en(Token::Label, 0),
        en(Token::LabelText, 2),
        en(Token::Data, 2),
        ex(Token::Data, 3),
        ex(Token::LabelText, 3),
        ex(Token::Label, 4),
        en(Token::Resource, 4),
        en(Token::ResourceDestinationString, 5),
        en(Token::Data, 5),
        ex(Token::Data, codes_len - 1),
        ex(Token::ResourceDestinationString, codes_len - 1),
        ex(Token::Resource, codes_len),
        ex(Token::Image, codes_len),
        ex(Token::Paragraph, codes_len),
    ]
}

#[test]
fn image_scheme_blocked() {
    let codes = codes_of("![a](javascript:x)");
    let events = image_events(codes.len());
    assert_eq!(
        compile(&events, &codes, &opts()),
        "<p><img src=\"\" alt=\"a\" /></p>"
    );
}

#[test]
fn image_scheme_allowed_when_dangerous() {
    let codes = codes_of("![a](javascript:x)");
    let events = image_events(codes.len());
    let options = Options {
        allow_dangerous_html: false,
        allow_dangerous_protocol: true,
        default_line_ending: LineEnding::LineFeed,
    };
    assert_eq!(
        compile(&events, &codes, &options),
        "<p><img src=\"javascript:x\" alt=\"a\" /></p>"
    );
}

#[test]
fn code_text_one_space_trim() {
    let codes = codes_of("` a `");
    let events = vec![
        en(Token::Paragraph, 0),
        en(Token::CodeText, 0),
        en(Token::CodeTextSequence, 0),
        ex(Token::CodeTextSequence, 1),
        en(Token::CodeTextData, 1),
        ex(Token::CodeTextData, 4),
        en(Token::CodeTextSequence, 4),
        ex(Token::CodeTextSequence, 5),
        ex(Token::CodeText, 5),
        ex(Token::Paragraph, 5),
    ];
    assert_eq!(compile(&events, &codes, &opts()), "<p><code>a</code></p>");
}

#[test]
fn character_references() {
    let codes = codes_of("&copy; &#65; &#x42; &bogus;");
    let events = vec![
        en(Token::Paragraph, 0),
        en(Token::CharacterReferenceMarker, 0),
        ex(Token::CharacterReferenceMarker, 1),
        en(Token::CharacterReferenceValue, 1),
        ex(Token::CharacterReferenceValue, 5),
        en(Token::CharacterReferenceMarkerSemi, 5),
        ex(Token::CharacterReferenceMarkerSemi, 6),
        en(Token::Data, 6),
        ex(Token::Data, 7),
        en(Token::CharacterReferenceMarker, 7),
        ex(Token::CharacterReferenceMarker, 8),
        en(Token::CharacterReferenceMarkerNumeric, 8),
        ex(Token::CharacterReferenceMarkerNumeric, 9),
        en(Token::CharacterReferenceValue, 9),
        ex(Token::CharacterReferenceValue, 11),
        en(Token::CharacterReferenceMarkerSemi, 11),
        ex(Token::CharacterReferenceMarkerSemi, 12),
        en(Token::Data, 12),
        ex(Token::Data, 13),
        en(Token::CharacterReferenceMarker, 13),
        ex(Token::CharacterReferenceMarker, 14),
        en(Token::CharacterReferenceMarkerNumeric, 14),
        ex(Token::CharacterReferenceMarkerNumeric, 15),
        en(Token::CharacterReferenceMarkerHexadecimal, 15),
        ex(Token::CharacterReferenceMarkerHexadecimal, 16),
        en(Token::CharacterReferenceValue, 16),
        ex(Token::CharacterReferenceValue, 18),
        en(Token::CharacterReferenceMarkerSemi, 18),
        ex(Token::CharacterReferenceMarkerSemi, 19),
        en(Token::Data, 19),
        ex(Token::Data, 27),
        ex(Token::Paragraph, 27),
    ];
    assert_eq!(
        compile(&events, &codes, &opts()),
        "<p>\u{a9} A B &amp;bogus;</p>"
    );
}

#[test]
fn definition_first_wins() {
    let codes = codes_of("[x]\n\n[x]: /1\n[x]: /2\n");
    let events = vec![
        en(Token::Paragraph, 0),
        en(Token::Link, 0),
        en(Token::Label, 0),
        en(Token::LabelText, 1),
        en(Token::Data, 1),
        ex(Token::Data, 2),
        ex(Token::LabelText, 2),
        ex(Token::Label, 3),
        ex(Token::Link, 3),
        ex(Token::Paragraph, 3),
        en(Token::Definition, 5),
        en(Token::DefinitionLabelString, 6),
        ex(Token::DefinitionLabelString, 7),
        en(Token::DefinitionDestinationString, 10),
        en(Token::Data, 10),
        ex(Token::Data, 12),
        ex(Token::DefinitionDestinationString, 12),
        ex(Token::Definition, 12),
        en(Token::LineEnding, 12),
        ex(Token::LineEnding, 13),
        en(Token::Definition, 13),
        en(Token::DefinitionLabelString, 14),
        ex(Token::DefinitionLabelString, 15),
        en(Token::DefinitionDestinationString, 18),
        en(Token::Data, 18),
        ex(Token::Data, 20),
        ex(Token::DefinitionDestinationString, 20),
        ex(Token::Definition, 20),
        en(Token::LineEnding, 20),
        ex(Token::LineEnding, 21),
    ];
    assert_eq!(
        compile(&events, &codes, &opts()),
        "<p><a href=\"/1\">x</a></p>"
    );
}

#[test]
fn link_inside_image_keeps_no_anchor() {
    let codes = codes_of("![a[b](/u)](/i)");
    let events = vec![
        en(Token::Paragraph, 0),
        en(Token::Image, 0),
        en(Token::Label, 0),
        en(Token::LabelText, 2),
        en(Token::Data, 2),
        ex(Token::Data, 3),
        en(Token::Link, 3),
        en(Token::Label, 3),
        en(Token::LabelText, 4),
        en(Token::Data, 4),
        ex(Token::Data, 5),
        ex(Token::LabelText, 5),
        ex(Token::Label, 6),
        en(Token::Resource, 6),
        en(Token::ResourceDestinationString, 7),
        en(Token::Data, 7),
        ex(Token::Data, 9),
        ex(Token::ResourceDestinationString, 9),
        ex(Token::Resource, 10),
        ex(Token::Link, 10),
        ex(Token::LabelText, 10),
        ex(Token::Label, 11),
        en(Token::Resource, 11),
        en(Token::ResourceDestinationString, 12),
        en(Token::Data, 12),
        ex(Token::Data, 14),
        ex(Token::ResourceDestinationString, 14),
        ex(Token::Resource, 15),
        ex(Token::Image, 15),
        ex(Token::Paragraph, 15),
    ];
    let html = compile(&events, &codes, &opts());
    assert_eq!(html, "<p><img src=\"/i\" alt=\"ab\" /></p>");
    assert!(!html.contains("<a"));
    assert!(!html.contains("</a>"));
}

#[test]
fn thematic_break_and_blockquote() {
    let codes = codes_of("***\n\n> q\n");
    let events = vec![
        en(Token::ThematicBreak, 0),
        ex(Token::ThematicBreak, 3),
        en(Token::LineEnding, 3),
        ex(Token::LineEnding, 4),
        en(Token::BlankLineEnding, 4),
        ex(Token::BlankLineEnding, 5),
        en(Token::BlockQuote, 5),
        en(Token::BlockQuotePrefix, 5),
        ex(Token::BlockQuotePrefix, 7),
        en(Token::Paragraph, 7),
        en(Token::Data, 7),
        ex(Token::Data, 8),
        ex(Token::Paragraph, 8),
        en(Token::LineEnding, 8),
        ex(Token::LineEnding, 9),
        ex(Token::BlockQuote, 9),
    ];
    assert_eq!(
        compile(&events, &codes, &opts()),
        "<hr />\n<blockquote>\n<p>q</p>\n</blockquote>"
    );
}

#[test]
fn ordered_list_start_value() {
    let codes = codes_of("3. a\n");
    let events = vec![
        en(Token::ListOrdered, 0),
        en(Token::ListItem, 0),
        en(Token::ListItemPrefix, 0),
        en(Token::ListItemValue, 0),
        ex(Token::ListItemValue, 1),
        en(Token::ListItemMarker, 1),
        ex(Token::ListItemMarker, 2),
        en(Token::SpaceOrTab, 2),
        ex(Token::SpaceOrTab, 3),
        ex(Token::ListItemPrefix, 3),
        en(Token::Paragraph, 3),
        en(Token::Data, 3),
        ex(Token::Data, 4),
        ex(Token::Paragraph, 4),
        en(Token::LineEnding, 4),
        ex(Token::LineEnding, 5),
        ex(Token::ListItem, 5),
        ex(Token::ListOrdered, 5),
    ];
    assert_eq!(
        compile(&events, &codes, &opts()),
        "<ol start=\"3\">\n<li>a</li>\n</ol>"
    );
}

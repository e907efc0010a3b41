//! The events of a markdown text: what opens, what closes, and the text between.
//!
//! The text is parsed by `pulldown_cmark`, with tables and strikethrough.

use vstd::prelude::*;

use pulldown_cmark::{CodeBlockKind, CowStr, Event, HeadingLevel, Options, Parser, Tag, TagEnd};

verus! {

/// What opens. `Other` stands for everything that shows nothing of its own.
#[derive(Debug, PartialEq, Eq)]
pub enum MdTag {
    Heading(u8),
    BlockQuote,
    /// A code block, with the text behind its fence; `None` for one that is indented.
    CodeBlock(Option<String>),
    /// A list, with the number that it starts with where it is ordered.
    List(Option<u64>),
    Item,
    Emphasis,
    Strong,
    Strikethrough,
    Table,
    TableCell,
    Link(String),
    Other,
}

/// What an [`MdTag`] stands for.
pub enum MdTagView {
    Heading(u8),
    BlockQuote,
    CodeBlock(Option<Seq<char>>),
    List(Option<u64>),
    Item,
    Emphasis,
    Strong,
    Strikethrough,
    Table,
    TableCell,
    Link(Seq<char>),
    Other,
}

impl View for MdTag {
    type V = MdTagView;

    open spec fn view(&self) -> MdTagView {
        match *self {
            MdTag::Heading(level) => MdTagView::Heading(level),
            MdTag::BlockQuote => MdTagView::BlockQuote,
            MdTag::CodeBlock(info) => MdTagView::CodeBlock(crate::text::opt_view(info)),
            MdTag::List(start) => MdTagView::List(start),
            MdTag::Item => MdTagView::Item,
            MdTag::Emphasis => MdTagView::Emphasis,
            MdTag::Strong => MdTagView::Strong,
            MdTag::Strikethrough => MdTagView::Strikethrough,
            MdTag::Table => MdTagView::Table,
            MdTag::TableCell => MdTagView::TableCell,
            MdTag::Link(url) => MdTagView::Link(url@),
            MdTag::Other => MdTagView::Other,
        }
    }
}

/// What closes.
#[derive(Debug, Clone, Copy, PartialEq, Eq, Structural)]
pub enum MdEnd {
    Paragraph,
    Heading,
    BlockQuote,
    CodeBlock,
    List,
    Item,
    Emphasis,
    Strong,
    Strikethrough,
    Table,
    TableHead,
    TableRow,
    TableCell,
    Link,
    Other,
}

/// One event. `Other` stands for raw HTML and everything else that shows nothing.
#[derive(Debug, PartialEq, Eq)]
pub enum MdEvent {
    Start(MdTag),
    End(MdEnd),
    Text(String),
    Code(String),
    SoftBreak,
    HardBreak,
    Rule,
    Other,
}

/// What an [`MdEvent`] stands for.
pub enum MdEventView {
    Start(MdTagView),
    End(MdEnd),
    Text(Seq<char>),
    Code(Seq<char>),
    SoftBreak,
    HardBreak,
    Rule,
    Other,
}

impl View for MdEvent {
    type V = MdEventView;

    open spec fn view(&self) -> MdEventView {
        match *self {
            MdEvent::Start(tag) => MdEventView::Start(tag@),
            MdEvent::End(end) => MdEventView::End(end),
            MdEvent::Text(text) => MdEventView::Text(text@),
            MdEvent::Code(text) => MdEventView::Code(text@),
            MdEvent::SoftBreak => MdEventView::SoftBreak,
            MdEvent::HardBreak => MdEventView::HardBreak,
            MdEvent::Rule => MdEventView::Rule,
            MdEvent::Other => MdEventView::Other,
        }
    }
}

/// `pulldown_cmark::Event`.
#[verifier::external_type_specification]
pub struct ExEvent<'a>(Event<'a>);

/// `pulldown_cmark::Tag`.
#[verifier::external_type_specification]
pub struct ExTag<'a>(Tag<'a>);

/// `pulldown_cmark::TagEnd`.
#[verifier::external_type_specification]
pub struct ExTagEnd(TagEnd);

/// `pulldown_cmark::CodeBlockKind`.
#[verifier::external_type_specification]
pub struct ExCodeBlockKind<'a>(CodeBlockKind<'a>);

/// `pulldown_cmark::HeadingLevel`.
#[verifier::external_type_specification]
pub struct ExHeadingLevel(HeadingLevel);

/// `pulldown_cmark::LinkType`.
#[verifier::external_type_specification]
#[verifier::external_body]
pub struct ExLinkType(pulldown_cmark::LinkType);

/// `pulldown_cmark::BlockQuoteKind`.
#[verifier::external_type_specification]
#[verifier::external_body]
pub struct ExBlockQuoteKind(pulldown_cmark::BlockQuoteKind);

/// `pulldown_cmark::Alignment`.
#[verifier::external_type_specification]
#[verifier::external_body]
pub struct ExAlignment(pulldown_cmark::Alignment);

/// `pulldown_cmark::MetadataBlockKind`.
#[verifier::external_type_specification]
#[verifier::external_body]
pub struct ExMetadataBlockKind(pulldown_cmark::MetadataBlockKind);

/// `pulldown_cmark::CowStr`: a text.
#[verifier::external_type_specification]
#[verifier::external_body]
pub struct ExCowStr<'a>(CowStr<'a>);

/// The characters that a `CowStr` holds.
pub uninterp spec fn cow_text(s: CowStr<'_>) -> Seq<char>;

/// The text of a `pulldown_cmark::CowStr`, owned.
#[verifier::external_body]
fn owned_text(s: &CowStr<'_>) -> (r: String)
    ensures
        r@ == cow_text(*s),
{
    s.to_string()
}

/// The events of a markdown text with tables and strikethrough, as `pulldown_cmark` gives
/// them.
pub uninterp spec fn markdown_events(text: Seq<char>) -> Seq<MdEventView>;

/// `pulldown_cmark::Parser::new_ext`: the events of a text, with tables and strikethrough.
#[verifier::external_body]
fn parse_events(text: &str) -> (r: Vec<Event<'_>>)
    ensures
        event_views(r@) == markdown_events(text@),
{
    Parser::new_ext(text, Options::ENABLE_TABLES | Options::ENABLE_STRIKETHROUGH).collect()
}

/// The depth of a heading.
pub open spec fn level_number(level: HeadingLevel) -> u8 {
    match level {
        HeadingLevel::H1 => 1,
        HeadingLevel::H2 => 2,
        HeadingLevel::H3 => 3,
        HeadingLevel::H4 => 4,
        HeadingLevel::H5 => 5,
        HeadingLevel::H6 => 6,
    }
}

/// What a tag stands for.
pub open spec fn tag_view(tag: Tag<'_>) -> MdTagView {
    match tag {
        Tag::Heading { level, .. } => MdTagView::Heading(level_number(level)),
        Tag::BlockQuote(_) => MdTagView::BlockQuote,
        Tag::CodeBlock(CodeBlockKind::Fenced(info)) => MdTagView::CodeBlock(Some(cow_text(info))),
        Tag::CodeBlock(CodeBlockKind::Indented) => MdTagView::CodeBlock(None),
        Tag::List(start) => MdTagView::List(start),
        Tag::Item => MdTagView::Item,
        Tag::Emphasis => MdTagView::Emphasis,
        Tag::Strong => MdTagView::Strong,
        Tag::Strikethrough => MdTagView::Strikethrough,
        Tag::Table(_) => MdTagView::Table,
        Tag::TableCell => MdTagView::TableCell,
        Tag::Link { dest_url, .. } => MdTagView::Link(cow_text(dest_url)),
        _ => MdTagView::Other,
    }
}

/// What the end of a tag stands for.
pub open spec fn end_view(end: TagEnd) -> MdEnd {
    match end {
        TagEnd::Paragraph => MdEnd::Paragraph,
        TagEnd::Heading(_) => MdEnd::Heading,
        TagEnd::BlockQuote(_) => MdEnd::BlockQuote,
        TagEnd::CodeBlock => MdEnd::CodeBlock,
        TagEnd::List(_) => MdEnd::List,
        TagEnd::Item => MdEnd::Item,
        TagEnd::Emphasis => MdEnd::Emphasis,
        TagEnd::Strong => MdEnd::Strong,
        TagEnd::Strikethrough => MdEnd::Strikethrough,
        TagEnd::Table => MdEnd::Table,
        TagEnd::TableHead => MdEnd::TableHead,
        TagEnd::TableRow => MdEnd::TableRow,
        TagEnd::TableCell => MdEnd::TableCell,
        TagEnd::Link => MdEnd::Link,
        _ => MdEnd::Other,
    }
}

/// What an event stands for.
pub open spec fn event_view(event: Event<'_>) -> MdEventView {
    match event {
        Event::Start(tag) => MdEventView::Start(tag_view(tag)),
        Event::End(end) => MdEventView::End(end_view(end)),
        Event::Text(text) => MdEventView::Text(cow_text(text)),
        Event::Code(text) => MdEventView::Code(cow_text(text)),
        Event::SoftBreak => MdEventView::SoftBreak,
        Event::HardBreak => MdEventView::HardBreak,
        Event::Rule => MdEventView::Rule,
        _ => MdEventView::Other,
    }
}

/// What some events stand for.
pub open spec fn event_views(events: Seq<Event<'_>>) -> Seq<MdEventView> {
    events.map_values(|e: Event<'_>| event_view(e))
}

fn tag_of(tag: &Tag<'_>) -> (r: MdTag)
    ensures
        r@ == tag_view(*tag),
{
    match tag {
        Tag::Heading { level, .. } => MdTag::Heading(
            match level {
                HeadingLevel::H1 => 1,
                HeadingLevel::H2 => 2,
                HeadingLevel::H3 => 3,
                HeadingLevel::H4 => 4,
                HeadingLevel::H5 => 5,
                HeadingLevel::H6 => 6,
            },
        ),
        Tag::BlockQuote(_) => MdTag::BlockQuote,
        Tag::CodeBlock(CodeBlockKind::Fenced(info)) => MdTag::CodeBlock(Some(owned_text(info))),
        Tag::CodeBlock(CodeBlockKind::Indented) => MdTag::CodeBlock(None),
        Tag::List(start) => MdTag::List(*start),
        Tag::Item => MdTag::Item,
        Tag::Emphasis => MdTag::Emphasis,
        Tag::Strong => MdTag::Strong,
        Tag::Strikethrough => MdTag::Strikethrough,
        Tag::Table(_) => MdTag::Table,
        Tag::TableCell => MdTag::TableCell,
        Tag::Link { dest_url, .. } => MdTag::Link(owned_text(dest_url)),
        _ => MdTag::Other,
    }
}

fn end_of(end: &TagEnd) -> (r: MdEnd)
    ensures
        r == end_view(*end),
{
    match end {
        TagEnd::Paragraph => MdEnd::Paragraph,
        TagEnd::Heading(_) => MdEnd::Heading,
        TagEnd::BlockQuote(_) => MdEnd::BlockQuote,
        TagEnd::CodeBlock => MdEnd::CodeBlock,
        TagEnd::List(_) => MdEnd::List,
        TagEnd::Item => MdEnd::Item,
        TagEnd::Emphasis => MdEnd::Emphasis,
        TagEnd::Strong => MdEnd::Strong,
        TagEnd::Strikethrough => MdEnd::Strikethrough,
        TagEnd::Table => MdEnd::Table,
        TagEnd::TableHead => MdEnd::TableHead,
        TagEnd::TableRow => MdEnd::TableRow,
        TagEnd::TableCell => MdEnd::TableCell,
        TagEnd::Link => MdEnd::Link,
        _ => MdEnd::Other,
    }
}

fn event_of(event: &Event<'_>) -> (r: MdEvent)
    ensures
        r@ == event_view(*event),
{
    match event {
        Event::Start(tag) => MdEvent::Start(tag_of(tag)),
        Event::End(end) => MdEvent::End(end_of(end)),
        Event::Text(text) => MdEvent::Text(owned_text(text)),
        Event::Code(text) => MdEvent::Code(owned_text(text)),
        Event::SoftBreak => MdEvent::SoftBreak,
        Event::HardBreak => MdEvent::HardBreak,
        Event::Rule => MdEvent::Rule,
        _ => MdEvent::Other,
    }
}

/// The events of a markdown text.
pub fn events_of(text: &str) -> (r: Vec<MdEvent>)
    ensures
        crate::text::views(r@) == markdown_events(text@),
{
    let events = parse_events(text);
    let mut out: Vec<MdEvent> = Vec::new();
    let mut i: usize = 0;
    while i < events.len()
        invariant
            i <= events.len(),
            out.len() == i,
            forall|k: int| 0 <= k < i ==> (#[trigger] out@[k])@ == event_view(events@[k]),
        decreases events.len() - i,
    {
        out.push(event_of(&events[i]));
        i = i + 1;
    }
    proof {
        assert(crate::text::views(out@) =~= event_views(events@));
    }
    out
}

} // verus!

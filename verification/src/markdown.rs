//! The markdown events that the grammar reference is built from, as the
//! `pulldown-cmark` parser reports them.
use vstd::prelude::*;
use pulldown_cmark::{Event, Options, Parser, Tag, TagEnd};

verus! {

#[verifier::external_type_specification]
#[verifier::external_body]
pub struct ExEvent<'a>(Event<'a>);

#[verifier::external_type_specification]
#[verifier::external_body]
pub struct ExTag<'a>(Tag<'a>);

#[verifier::external_type_specification]
#[verifier::external_body]
pub struct ExTagEnd(TagEnd);

/// A parser event, reduced to what the grammar view distinguishes. Table
/// header and body rows are both rows, soft and hard line breaks are both
/// breaks, and events the view ignores (lists, tables, block quotes,
/// footnotes, strikethrough, images, ...) are `Other`.
#[derive(Debug, Clone, PartialEq, Eq)]
pub enum MdEvent {
    StartParagraph,
    EndParagraph,
    StartHeading(u8),
    EndHeading,
    StartItem,
    EndItem,
    StartCodeBlock,
    EndCodeBlock,
    StartRow,
    EndRow,
    StartCell,
    EndCell,
    StartStrong,
    EndStrong,
    StartEmphasis,
    EndEmphasis,
    StartLink(String),
    EndLink,
    Text(String),
    Code(String),
    Html(String),
    InlineHtml(String),
    Break,
    Rule,
    Other,
}

/// The mathematical content of an `MdEvent`.
pub enum MdEventV {
    StartParagraph,
    EndParagraph,
    StartHeading(u8),
    EndHeading,
    StartItem,
    EndItem,
    StartCodeBlock,
    EndCodeBlock,
    StartRow,
    EndRow,
    StartCell,
    EndCell,
    StartStrong,
    EndStrong,
    StartEmphasis,
    EndEmphasis,
    StartLink(Seq<char>),
    EndLink,
    Text(Seq<char>),
    Code(Seq<char>),
    Html(Seq<char>),
    InlineHtml(Seq<char>),
    Break,
    Rule,
    Other,
}

impl View for MdEvent {
    type V = MdEventV;

    open spec fn view(&self) -> MdEventV {
        match self {
            MdEvent::StartParagraph => MdEventV::StartParagraph,
            MdEvent::EndParagraph => MdEventV::EndParagraph,
            MdEvent::StartHeading(l) => MdEventV::StartHeading(*l),
            MdEvent::EndHeading => MdEventV::EndHeading,
            MdEvent::StartItem => MdEventV::StartItem,
            MdEvent::EndItem => MdEventV::EndItem,
            MdEvent::StartCodeBlock => MdEventV::StartCodeBlock,
            MdEvent::EndCodeBlock => MdEventV::EndCodeBlock,
            MdEvent::StartRow => MdEventV::StartRow,
            MdEvent::EndRow => MdEventV::EndRow,
            MdEvent::StartCell => MdEventV::StartCell,
            MdEvent::EndCell => MdEventV::EndCell,
            MdEvent::StartStrong => MdEventV::StartStrong,
            MdEvent::EndStrong => MdEventV::EndStrong,
            MdEvent::StartEmphasis => MdEventV::StartEmphasis,
            MdEvent::EndEmphasis => MdEventV::EndEmphasis,
            MdEvent::StartLink(u) => MdEventV::StartLink(u@),
            MdEvent::EndLink => MdEventV::EndLink,
            MdEvent::Text(t) => MdEventV::Text(t@),
            MdEvent::Code(t) => MdEventV::Code(t@),
            MdEvent::Html(t) => MdEventV::Html(t@),
            MdEvent::InlineHtml(t) => MdEventV::InlineHtml(t@),
            MdEvent::Break => MdEventV::Break,
            MdEvent::Rule => MdEventV::Rule,
            MdEvent::Other => MdEventV::Other,
        }
    }
}

/// The views of a sequence of events.
pub open spec fn events_view(s: Seq<MdEvent>) -> Seq<MdEventV> {
    s.map_values(|e: MdEvent| e@)
}

/// The events that `pulldown-cmark` reports for the markdown text `src`,
/// with tables and strikethrough enabled, each reduced to an `MdEvent` as
/// the converters below reduce it.
pub uninterp spec fn markdown_events(src: Seq<char>) -> Seq<MdEventV>;

/// `pulldown_cmark::Parser::new_ext` with tables and strikethrough enabled,
/// run to the end. Its result depends on `src` alone: the contract names it
/// `markdown_events(src)` and claims nothing more of what the parser does.
#[verifier::external_body]
pub(crate) fn parse_markdown(src: &str) -> (events: Vec<MdEvent>)
    ensures
        events_view(events@) == markdown_events(src@),
{
    let opts = Options::ENABLE_TABLES | Options::ENABLE_STRIKETHROUGH;
    Parser::new_ext(src, opts).map(md_event).collect()
}

/// Converts a parser event to an `MdEvent`, one arm per kind of event.
#[verifier::external_body]
fn md_event(e: Event) -> MdEvent {
    match e {
        Event::Start(t) => md_start(t),
        Event::End(t) => md_end(t),
        Event::Text(s) => MdEvent::Text(s.to_string()),
        Event::Code(s) => MdEvent::Code(s.to_string()),
        Event::Html(s) => MdEvent::Html(s.to_string()),
        Event::InlineHtml(s) => MdEvent::InlineHtml(s.to_string()),
        Event::SoftBreak | Event::HardBreak => MdEvent::Break,
        Event::Rule => MdEvent::Rule,
        _ => MdEvent::Other,
    }
}

/// Converts the start of a parser element to an `MdEvent`.
#[verifier::external_body]
fn md_start(t: Tag) -> MdEvent {
    match t {
        Tag::Paragraph => MdEvent::StartParagraph,
        Tag::Heading { level, .. } => MdEvent::StartHeading(level as u8),
        Tag::Item => MdEvent::StartItem,
        Tag::CodeBlock(_) => MdEvent::StartCodeBlock,
        Tag::TableHead | Tag::TableRow => MdEvent::StartRow,
        Tag::TableCell => MdEvent::StartCell,
        Tag::Strong => MdEvent::StartStrong,
        Tag::Emphasis => MdEvent::StartEmphasis,
        Tag::Link { dest_url, .. } => MdEvent::StartLink(dest_url.to_string()),
        _ => MdEvent::Other,
    }
}

/// Converts the end of a parser element to an `MdEvent`.
#[verifier::external_body]
fn md_end(t: TagEnd) -> MdEvent {
    match t {
        TagEnd::Paragraph => MdEvent::EndParagraph,
        TagEnd::Heading(_) => MdEvent::EndHeading,
        TagEnd::Item => MdEvent::EndItem,
        TagEnd::CodeBlock => MdEvent::EndCodeBlock,
        TagEnd::TableHead | TagEnd::TableRow => MdEvent::EndRow,
        TagEnd::TableCell => MdEvent::EndCell,
        TagEnd::Strong => MdEvent::EndStrong,
        TagEnd::Emphasis => MdEvent::EndEmphasis,
        TagEnd::Link => MdEvent::EndLink,
        _ => MdEvent::Other,
    }
}

} // verus!

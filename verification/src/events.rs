//! The Markdown event stream.
//!
//! Tokenising Markdown is the work of `pulldown-cmark`. Its events are
//! converted, one for one, into the plain [`MdEvent`] values that the parser
//! folds; nothing else in the crate sees the outside types. Each look inside
//! an outside value is one small trusted function; the code that puts the
//! pieces together is verified like the rest.

use pulldown_cmark::{CodeBlockKind, Event, Options, Parser, Tag, TagEnd};
use vstd::prelude::*;

verus! {

/// The level of a heading.
#[derive(Debug, Clone, Copy, PartialEq, Eq)]
pub enum Level {
    H1,
    H2,
    H3,
    H4,
    H5,
    H6,
}

/// The opening of an element that contains other events.
#[derive(Debug, PartialEq, Eq)]
pub enum MdTag {
    Heading(Level),
    /// A fenced code block with its info string, which may be empty.
    FencedCode(String),
    IndentedCode,
    /// A list; an ordered one carries the number of its first item.
    List(Option<u64>),
    Item,
    Table,
    TableHead,
    TableRow,
    TableCell,
    Emphasis,
    Strong,
    /// A link with its destination.
    Link(String),
    /// Any element the parser gives no meaning to.
    Other,
}

/// The closing of an element.
#[derive(Debug, Clone, Copy, PartialEq, Eq)]
pub enum MdTagEnd {
    Paragraph,
    Heading,
    CodeBlock,
    List,
    Item,
    Table,
    TableHead,
    TableRow,
    TableCell,
    Emphasis,
    Strong,
    Link,
    /// Any element the parser gives no meaning to.
    Other,
}

/// One event of the stream.
#[derive(Debug, PartialEq, Eq)]
pub enum MdEvent {
    Start(MdTag),
    End(MdTagEnd),
    Text(String),
    Code(String),
    SoftBreak,
    HardBreak,
    Rule,
    TaskListMarker(bool),
    /// Any event the parser gives no meaning to.
    Other,
}

/// Model of an [`MdTag`].
#[verifier::ext_equal]
pub enum MdTagModel {
    Heading(Level),
    FencedCode(Seq<char>),
    IndentedCode,
    List(Option<u64>),
    Item,
    Table,
    TableHead,
    TableRow,
    TableCell,
    Emphasis,
    Strong,
    Link(Seq<char>),
    Other,
}

/// Model of an [`MdEvent`].
#[verifier::ext_equal]
pub enum MdEventModel {
    Start(MdTagModel),
    End(MdTagEnd),
    Text(Seq<char>),
    Code(Seq<char>),
    SoftBreak,
    HardBreak,
    Rule,
    TaskListMarker(bool),
    Other,
}

impl View for MdTag {
    type V = MdTagModel;

    open spec fn view(&self) -> MdTagModel {
        match *self {
            MdTag::Heading(level) => MdTagModel::Heading(level),
            MdTag::FencedCode(info) => MdTagModel::FencedCode(info@),
            MdTag::IndentedCode => MdTagModel::IndentedCode,
            MdTag::List(first) => MdTagModel::List(first),
            MdTag::Item => MdTagModel::Item,
            MdTag::Table => MdTagModel::Table,
            MdTag::TableHead => MdTagModel::TableHead,
            MdTag::TableRow => MdTagModel::TableRow,
            MdTag::TableCell => MdTagModel::TableCell,
            MdTag::Emphasis => MdTagModel::Emphasis,
            MdTag::Strong => MdTagModel::Strong,
            MdTag::Link(url) => MdTagModel::Link(url@),
            MdTag::Other => MdTagModel::Other,
        }
    }
}

impl View for MdEvent {
    type V = MdEventModel;

    open spec fn view(&self) -> MdEventModel {
        match *self {
            MdEvent::Start(tag) => MdEventModel::Start(tag@),
            MdEvent::End(end) => MdEventModel::End(end),
            MdEvent::Text(text) => MdEventModel::Text(text@),
            MdEvent::Code(code) => MdEventModel::Code(code@),
            MdEvent::SoftBreak => MdEventModel::SoftBreak,
            MdEvent::HardBreak => MdEventModel::HardBreak,
            MdEvent::Rule => MdEventModel::Rule,
            MdEvent::TaskListMarker(checked) => MdEventModel::TaskListMarker(checked),
            MdEvent::Other => MdEventModel::Other,
        }
    }
}

/// The models of a sequence of events, in order.
pub open spec fn events_model(events: Seq<MdEvent>) -> Seq<MdEventModel> {
    Seq::new(events.len(), |i: int| events[i]@)
}

/// The number of a heading level, from 1 to 6.
pub open spec fn level_number(level: Level) -> u8 {
    match level {
        Level::H1 => 1,
        Level::H2 => 2,
        Level::H3 => 3,
        Level::H4 => 4,
        Level::H5 => 5,
        Level::H6 => 6,
    }
}

/// The number of a heading level.
pub fn heading_level_to_u8(level: Level) -> (n: u8)
    ensures
        n == level_number(level),
        1 <= n <= 6,
{
    match level {
        Level::H1 => 1,
        Level::H2 => 2,
        Level::H3 => 3,
        Level::H4 => 4,
        Level::H5 => 5,
        Level::H6 => 6,
    }
}

/// The heading level with the given number, if the number is one from 1
/// to 6.
pub open spec fn level_with_number(number: u8) -> Option<Level> {
    if number == 1 {
        Some(Level::H1)
    } else if number == 2 {
        Some(Level::H2)
    } else if number == 3 {
        Some(Level::H3)
    } else if number == 4 {
        Some(Level::H4)
    } else if number == 5 {
        Some(Level::H5)
    } else if number == 6 {
        Some(Level::H6)
    } else {
        None
    }
}

/// The heading level with the given number, if the number is one from 1
/// to 6.
pub fn level_from_number(number: u8) -> (level: Option<Level>)
    ensures
        level == level_with_number(number),
        level is Some <==> 1 <= number <= 6,
        level matches Some(found) ==> level_number(found) == number,
{
    match number {
        1 => Some(Level::H1),
        2 => Some(Level::H2),
        3 => Some(Level::H3),
        4 => Some(Level::H4),
        5 => Some(Level::H5),
        6 => Some(Level::H6),
        _ => None,
    }
}

/// `pulldown_cmark::Event`, carried through without a look inside.
#[verifier::external_type_specification]
#[verifier::external_body]
pub struct ExEvent<'a>(Event<'a>);

/// `pulldown_cmark::Tag`, carried through without a look inside.
#[verifier::external_type_specification]
#[verifier::external_body]
pub struct ExTag<'a>(Tag<'a>);

/// `pulldown_cmark::TagEnd`, carried through without a look inside.
#[verifier::external_type_specification]
#[verifier::external_body]
pub struct ExTagEnd(TagEnd);

/// An event with its outermost layer taken off: what it opens or closes is
/// still in the form of the outside crate.
enum EventParts<'a> {
    Start(Tag<'a>),
    End(TagEnd),
    Text(String),
    Code(String),
    SoftBreak,
    HardBreak,
    Rule,
    TaskListMarker(bool),
    Other,
}

/// An opening tag in plain values: the variant, the number of a heading's
/// level, the info string of a fence, the first number of an ordered list,
/// the destination of a link.
enum TagParts {
    Heading(u8),
    FencedCode(String),
    IndentedCode,
    List(Option<u64>),
    Item,
    Table,
    TableHead,
    TableRow,
    TableCell,
    Emphasis,
    Strong,
    Link(String),
    Other,
}

/// The events that `pulldown-cmark` yields for a text, with its table and
/// task-list extensions switched on.
pub uninterp spec fn markdown_events(text: Seq<char>) -> Seq<MdEventModel>;

/// Runs `pulldown_cmark::Parser::new_ext` over the text with tables and
/// task lists enabled and collects its events, each converted by
/// [`event_from`]. The parser is a function of the text and the options
/// alone, so the collected stream is named [`markdown_events`]; nothing is
/// claimed about what the stream holds.
#[verifier::external_body]
pub(crate) fn tokenize(markdown: &str) -> (events: Vec<MdEvent>)
    ensures
        events_model(events@) == markdown_events(markdown@),
{
    let mut options = Options::empty();
    options.insert(Options::ENABLE_TABLES);
    options.insert(Options::ENABLE_TASKLISTS);
    Parser::new_ext(markdown, options).map(|event| event_from(event)).collect()
}

/// Tells the variants of a `pulldown_cmark::Event` apart, one for one, and
/// turns its text into a `String`.
#[verifier::external_body]
fn split_event(event: Event<'_>) -> EventParts<'_> {
    match event {
        Event::Start(tag) => EventParts::Start(tag),
        Event::End(end) => EventParts::End(end),
        Event::Text(text) => EventParts::Text(text.into_string()),
        Event::Code(code) => EventParts::Code(code.into_string()),
        Event::SoftBreak => EventParts::SoftBreak,
        Event::HardBreak => EventParts::HardBreak,
        Event::Rule => EventParts::Rule,
        Event::TaskListMarker(checked) => EventParts::TaskListMarker(checked),
        _ => EventParts::Other,
    }
}

/// Tells the variants of a `pulldown_cmark::Tag` apart, one for one, and
/// turns the level of a heading into its number and the info string of a
/// fence and the destination of a link into a `String`.
#[verifier::external_body]
fn split_tag(tag: Tag<'_>) -> TagParts {
    match tag {
        Tag::Heading { level, .. } => TagParts::Heading(level as u8),
        Tag::CodeBlock(CodeBlockKind::Fenced(info)) => TagParts::FencedCode(info.into_string()),
        Tag::CodeBlock(CodeBlockKind::Indented) => TagParts::IndentedCode,
        Tag::List(first) => TagParts::List(first),
        Tag::Item => TagParts::Item,
        Tag::Table(_) => TagParts::Table,
        Tag::TableHead => TagParts::TableHead,
        Tag::TableRow => TagParts::TableRow,
        Tag::TableCell => TagParts::TableCell,
        Tag::Emphasis => TagParts::Emphasis,
        Tag::Strong => TagParts::Strong,
        Tag::Link { dest_url, .. } => TagParts::Link(dest_url.into_string()),
        _ => TagParts::Other,
    }
}

/// Tells the variants of a `pulldown_cmark::TagEnd` apart, one for one.
#[verifier::external_body]
fn tag_end_from(end: TagEnd) -> MdTagEnd {
    match end {
        TagEnd::Paragraph => MdTagEnd::Paragraph,
        TagEnd::Heading(_) => MdTagEnd::Heading,
        TagEnd::CodeBlock => MdTagEnd::CodeBlock,
        TagEnd::List(_) => MdTagEnd::List,
        TagEnd::Item => MdTagEnd::Item,
        TagEnd::Table => MdTagEnd::Table,
        TagEnd::TableHead => MdTagEnd::TableHead,
        TagEnd::TableRow => MdTagEnd::TableRow,
        TagEnd::TableCell => MdTagEnd::TableCell,
        TagEnd::Emphasis => MdTagEnd::Emphasis,
        TagEnd::Strong => MdTagEnd::Strong,
        TagEnd::Link => MdTagEnd::Link,
        _ => MdTagEnd::Other,
    }
}

/// The tag that the plain values of an opening tag stand for. A heading
/// whose number is no level has no meaning to the parser.
spec fn tag_parts_model(parts: TagParts) -> MdTagModel {
    match parts {
        TagParts::Heading(number) => match level_with_number(number) {
            Some(level) => MdTagModel::Heading(level),
            None => MdTagModel::Other,
        },
        TagParts::FencedCode(info) => MdTagModel::FencedCode(info@),
        TagParts::IndentedCode => MdTagModel::IndentedCode,
        TagParts::List(first) => MdTagModel::List(first),
        TagParts::Item => MdTagModel::Item,
        TagParts::Table => MdTagModel::Table,
        TagParts::TableHead => MdTagModel::TableHead,
        TagParts::TableRow => MdTagModel::TableRow,
        TagParts::TableCell => MdTagModel::TableCell,
        TagParts::Emphasis => MdTagModel::Emphasis,
        TagParts::Strong => MdTagModel::Strong,
        TagParts::Link(url) => MdTagModel::Link(url@),
        TagParts::Other => MdTagModel::Other,
    }
}

/// The opening tag of the library that the plain values of an opening tag
/// stand for.
fn tag_from(parts: TagParts) -> (tag: MdTag)
    ensures
        tag@ == tag_parts_model(parts),
{
    match parts {
        TagParts::Heading(number) => match level_from_number(number) {
            Some(level) => MdTag::Heading(level),
            None => MdTag::Other,
        },
        TagParts::FencedCode(info) => MdTag::FencedCode(info),
        TagParts::IndentedCode => MdTag::IndentedCode,
        TagParts::List(first) => MdTag::List(first),
        TagParts::Item => MdTag::Item,
        TagParts::Table => MdTag::Table,
        TagParts::TableHead => MdTag::TableHead,
        TagParts::TableRow => MdTag::TableRow,
        TagParts::TableCell => MdTag::TableCell,
        TagParts::Emphasis => MdTag::Emphasis,
        TagParts::Strong => MdTag::Strong,
        TagParts::Link(url) => MdTag::Link(url),
        TagParts::Other => MdTag::Other,
    }
}

/// The event of the outside crate as one of the library.
fn event_from(event: Event<'_>) -> MdEvent {
    match split_event(event) {
        EventParts::Start(tag) => MdEvent::Start(tag_from(split_tag(tag))),
        EventParts::End(end) => MdEvent::End(tag_end_from(end)),
        EventParts::Text(text) => MdEvent::Text(text),
        EventParts::Code(code) => MdEvent::Code(code),
        EventParts::SoftBreak => MdEvent::SoftBreak,
        EventParts::HardBreak => MdEvent::HardBreak,
        EventParts::Rule => MdEvent::Rule,
        EventParts::TaskListMarker(checked) => MdEvent::TaskListMarker(checked),
        EventParts::Other => MdEvent::Other,
    }
}

} // verus!

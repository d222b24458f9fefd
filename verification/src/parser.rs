//! The parser: a fold of the Markdown event stream into the document model.
//!
//! All nesting state lives in one [`ParseState`] value. [`step`] is the
//! transition function on its model; [`process_event`] is its executable
//! form, and [`parse_events`] runs it over a whole stream.

use crate::block::{
    blocks_model, cells_model, document_well_formed, items_model, rows_model, spans_model,
    text_model, Block, BlockModel, List, ListItem, ListItemModel, ListModel, Span, SpanModel,
};
use crate::events::{
    events_model, heading_level_to_u8, level_number, markdown_events, tokenize, MdEvent,
    MdEventModel, MdTag, MdTagEnd, MdTagModel,
};
use crate::text::{
    chars_of, has_prefix, match_at, matches_at, take_string, take_vec, trim, trim_leading,
    trimmed_equals,
};
use vstd::prelude::*;
use vstd::string::*;

verus! {

/// A paragraph that reads exactly this, whitespace aside, asks for a page
/// break.
pub const PAGE_BREAK_MARKER: &'static str = "---pagebreak---";

/// The delimiter that opens front matter at the very start of a text.
pub const FRONT_MATTER_OPEN: &'static str = "---";

/// The delimiter that closes front matter: a line of three hyphens, taken
/// with the newline before it.
pub const FRONT_MATTER_CLOSE: &'static str = "\n---";

/// The kind of an open emphasis.
#[derive(Debug, Clone, Copy, PartialEq, Eq)]
pub enum FormatKind {
    Bold,
    Italic,
}

/// A list under construction.
#[derive(Debug, PartialEq, Eq)]
pub struct ListBuilder {
    pub ordered: bool,
    pub items: Vec<ListItem>,
    pub current_item_spans: Vec<Span>,
    pub current_item_checked: Option<bool>,
}

/// Model of a [`ListBuilder`].
#[verifier::ext_equal]
pub struct ListBuilderModel {
    pub ordered: bool,
    pub items: Seq<ListItemModel>,
    pub current_item_spans: Seq<SpanModel>,
    pub current_item_checked: Option<bool>,
}

/// Everything the parser remembers between two events.
#[derive(Debug, PartialEq, Eq)]
pub struct ParseState {
    /// Inline content being built.
    pub spans: Vec<Span>,
    /// Open emphases, innermost last.
    pub format_stack: Vec<FormatKind>,
    /// The span sequences set aside while an emphasis or link is open.
    pub span_stack: Vec<Vec<Span>>,
    /// The level of the heading being read, if any.
    pub heading_level: Option<u8>,
    pub in_code_block: bool,
    pub code_language: Option<String>,
    pub code_content: String,
    /// The destination of the link being read, if any.
    pub link_url: Option<String>,
    /// The lists under construction, innermost last.
    pub list_stack: Vec<ListBuilder>,
    pub in_table: bool,
    pub table_headers: Vec<Vec<Span>>,
    pub table_rows: Vec<Vec<Vec<Span>>>,
    pub current_row: Vec<Vec<Span>>,
    pub in_table_head: bool,
}

/// Model of a [`ParseState`].
#[verifier::ext_equal]
pub struct ParseModel {
    pub spans: Seq<SpanModel>,
    pub format_stack: Seq<FormatKind>,
    pub span_stack: Seq<Seq<SpanModel>>,
    pub heading_level: Option<u8>,
    pub in_code_block: bool,
    pub code_language: Option<Seq<char>>,
    pub code_content: Seq<char>,
    pub link_url: Option<Seq<char>>,
    pub list_stack: Seq<ListBuilderModel>,
    pub in_table: bool,
    pub table_headers: Seq<Seq<SpanModel>>,
    pub table_rows: Seq<Seq<Seq<SpanModel>>>,
    pub current_row: Seq<Seq<SpanModel>>,
    pub in_table_head: bool,
}

impl View for ListBuilder {
    type V = ListBuilderModel;

    open spec fn view(&self) -> ListBuilderModel {
        ListBuilderModel {
            ordered: self.ordered,
            items: items_model(self.items@),
            current_item_spans: spans_model(self.current_item_spans@),
            current_item_checked: self.current_item_checked,
        }
    }
}

/// The models of a stack of list builders, in order.
pub open spec fn builders_model(builders: Seq<ListBuilder>) -> Seq<ListBuilderModel> {
    Seq::new(builders.len(), |i: int| builders[i]@)
}

impl View for ParseState {
    type V = ParseModel;

    open spec fn view(&self) -> ParseModel {
        ParseModel {
            spans: spans_model(self.spans@),
            format_stack: self.format_stack@,
            span_stack: cells_model(self.span_stack@),
            heading_level: self.heading_level,
            in_code_block: self.in_code_block,
            code_language: text_model(self.code_language),
            code_content: self.code_content@,
            link_url: text_model(self.link_url),
            list_stack: builders_model(self.list_stack@),
            in_table: self.in_table,
            table_headers: cells_model(self.table_headers@),
            table_rows: rows_model(self.table_rows@),
            current_row: cells_model(self.current_row@),
            in_table_head: self.in_table_head,
        }
    }
}

/// A paragraph of exactly one plain-text span that reads the page-break
/// marker once the whitespace around it is removed.
pub open spec fn is_page_break_request(content: Seq<SpanModel>) -> bool {
    &&& content.len() == 1
    &&& content[0] matches SpanModel::Text(text)
    &&& trim(text) == PAGE_BREAK_MARKER@
}

impl ListBuilderModel {
    /// A builder for a list that has no items yet.
    pub open spec fn empty(ordered: bool) -> ListBuilderModel {
        ListBuilderModel {
            ordered,
            items: Seq::empty(),
            current_item_spans: Seq::empty(),
            current_item_checked: None,
        }
    }

    /// The builder after its current item is closed with `remaining` as the
    /// last of its spans.
    pub open spec fn close_item(self, remaining: Seq<SpanModel>) -> ListBuilderModel {
        ListBuilderModel {
            items: self.items.push(
                ListItemModel {
                    content: self.current_item_spans + remaining,
                    nested: None,
                    checked: self.current_item_checked,
                },
            ),
            current_item_spans: Seq::empty(),
            current_item_checked: None,
            ..self
        }
    }

    /// The builder after `list` is attached under its last item; a builder
    /// without items stays as it is.
    pub open spec fn attach_nested(self, list: ListModel) -> ListBuilderModel {
        if self.items.len() > 0 {
            ListBuilderModel {
                items: self.items.update(
                    self.items.len() - 1,
                    ListItemModel { nested: Some(list), ..self.items.last() },
                ),
                ..self
            }
        } else {
            self
        }
    }

    /// The list built so far.
    pub open spec fn list(self) -> ListModel {
        ListModel { ordered: self.ordered, items: self.items }
    }
}

impl ParseModel {
    /// The state before the first event.
    pub open spec fn initial() -> ParseModel {
        ParseModel {
            spans: Seq::empty(),
            format_stack: Seq::empty(),
            span_stack: Seq::empty(),
            heading_level: None,
            in_code_block: false,
            code_language: None,
            code_content: Seq::empty(),
            link_url: None,
            list_stack: Seq::empty(),
            in_table: false,
            table_headers: Seq::empty(),
            table_rows: Seq::empty(),
            current_row: Seq::empty(),
            in_table_head: false,
        }
    }

    /// A heading being read has a level between 1 and 6.
    pub open spec fn well_formed(self) -> bool {
        self.heading_level matches Some(level) ==> 1 <= level <= 6
    }

    /// The state with one more span at the end of the inline content.
    pub open spec fn push_span(self, span: SpanModel) -> ParseModel {
        ParseModel { spans: self.spans.push(span), ..self }
    }

    /// The state with the innermost list builder replaced.
    pub open spec fn with_innermost(self, builder: ListBuilderModel) -> ParseModel {
        ParseModel {
            list_stack: self.list_stack.update(self.list_stack.len() - 1, builder),
            ..self
        }
    }

    /// The state after an emphasis opens: the inline content so far is set
    /// aside and a fresh one begins.
    pub open spec fn open_format(self, kind: FormatKind) -> ParseModel {
        ParseModel {
            format_stack: self.format_stack.push(kind),
            span_stack: self.span_stack.push(self.spans),
            spans: Seq::empty(),
            ..self
        }
    }

    /// The state after an emphasis closes: the content read since it opened
    /// becomes one span at the end of the content set aside. With nothing
    /// set aside the content is dropped.
    pub open spec fn close_format(self, kind: FormatKind) -> ParseModel {
        let format_stack = if self.format_stack.len() > 0 {
            self.format_stack.drop_last()
        } else {
            self.format_stack
        };
        let wrapped = match kind {
            FormatKind::Bold => SpanModel::Bold(self.spans),
            FormatKind::Italic => SpanModel::Italic(self.spans),
        };
        if self.span_stack.len() > 0 {
            ParseModel {
                format_stack,
                spans: self.span_stack.last().push(wrapped),
                span_stack: self.span_stack.drop_last(),
                ..self
            }
        } else {
            ParseModel { format_stack, spans: Seq::empty(), ..self }
        }
    }

    /// The state after a link opens.
    pub open spec fn open_link(self, url: Seq<char>) -> ParseModel {
        ParseModel {
            link_url: Some(url),
            span_stack: self.span_stack.push(self.spans),
            spans: Seq::empty(),
            ..self
        }
    }

    /// The state after a link closes: the content read since it opened
    /// becomes one link span at the end of the content set aside, if a
    /// destination is known.
    pub open spec fn close_link(self) -> ParseModel {
        if self.span_stack.len() > 0 {
            let parent = self.span_stack.last();
            ParseModel {
                spans: match self.link_url {
                    Some(url) => parent.push(SpanModel::Link { url, content: self.spans }),
                    None => parent,
                },
                link_url: None,
                span_stack: self.span_stack.drop_last(),
                ..self
            }
        } else {
            ParseModel { spans: Seq::empty(), ..self }
        }
    }

    /// The state after a code block opens with the given language tag.
    pub open spec fn open_code_block(self, language: Option<Seq<char>>) -> ParseModel {
        ParseModel {
            in_code_block: true,
            code_language: language,
            code_content: Seq::empty(),
            ..self
        }
    }

    /// The state after the opening of an element.
    pub open spec fn start_tag(self, tag: MdTagModel) -> ParseModel {
        match tag {
            MdTagModel::Heading(level) => ParseModel {
                heading_level: Some(level_number(level)),
                ..self
            },
            MdTagModel::FencedCode(info) => self.open_code_block(
                if info.len() == 0 {
                    None
                } else {
                    Some(info)
                },
            ),
            MdTagModel::IndentedCode => self.open_code_block(None),
            MdTagModel::List(first) => ParseModel {
                list_stack: self.list_stack.push(ListBuilderModel::empty(first is Some)),
                ..self
            },
            MdTagModel::Item => if self.list_stack.len() > 0 {
                self.with_innermost(
                    ListBuilderModel {
                        current_item_spans: Seq::empty(),
                        current_item_checked: None,
                        ..self.list_stack.last()
                    },
                )
            } else {
                self
            },
            MdTagModel::Table => ParseModel {
                in_table: true,
                table_headers: Seq::empty(),
                table_rows: Seq::empty(),
                ..self
            },
            MdTagModel::TableHead => ParseModel {
                in_table_head: true,
                current_row: Seq::empty(),
                ..self
            },
            MdTagModel::TableRow => ParseModel { current_row: Seq::empty(), ..self },
            MdTagModel::TableCell => ParseModel { spans: Seq::empty(), ..self },
            MdTagModel::Emphasis => self.open_format(FormatKind::Italic),
            MdTagModel::Strong => self.open_format(FormatKind::Bold),
            MdTagModel::Link(url) => self.open_link(url),
            MdTagModel::Other => self,
        }
    }

    /// The state after a paragraph closes, and the block it gives. An empty
    /// paragraph gives nothing; a page-break request gives a page break;
    /// inside a list item the content joins the item; inside a table it is
    /// dropped; anywhere else it is a paragraph block.
    pub open spec fn end_paragraph(self) -> (ParseModel, Option<BlockModel>) {
        let content = self.spans;
        let cleared = ParseModel { spans: Seq::empty(), ..self };
        if content.len() == 0 {
            (cleared, None)
        } else if is_page_break_request(content) {
            (cleared, Some(BlockModel::PageBreak))
        } else if self.list_stack.len() > 0 {
            let innermost = self.list_stack.last();
            (
                cleared.with_innermost(
                    ListBuilderModel {
                        current_item_spans: innermost.current_item_spans + content,
                        ..innermost
                    },
                ),
                None,
            )
        } else if self.in_table {
            (cleared, None)
        } else {
            (cleared, Some(BlockModel::Paragraph { content }))
        }
    }

    /// The state after a list item closes.
    pub open spec fn end_item(self) -> ParseModel {
        let cleared = ParseModel { spans: Seq::empty(), ..self };
        if self.list_stack.len() > 0 {
            cleared.with_innermost(self.list_stack.last().close_item(self.spans))
        } else {
            cleared
        }
    }

    /// The state after a list closes, and the block it gives: a nested list
    /// goes under the last item of the list around it, a top-level list is a
    /// block.
    pub open spec fn end_list(self) -> (ParseModel, Option<BlockModel>) {
        if self.list_stack.len() == 0 {
            (self, None)
        } else {
            let list = self.list_stack.last().list();
            let outer = self.list_stack.drop_last();
            if outer.len() > 0 {
                (
                    ParseModel {
                        list_stack: outer.update(
                            outer.len() - 1,
                            outer.last().attach_nested(list),
                        ),
                        ..self
                    },
                    None,
                )
            } else {
                (ParseModel { list_stack: outer, ..self }, Some(BlockModel::List(list)))
            }
        }
    }

    /// The state after the closing of an element, and the block it gives.
    pub open spec fn end_tag(self, end: MdTagEnd) -> (ParseModel, Option<BlockModel>) {
        match end {
            MdTagEnd::Paragraph => self.end_paragraph(),
            MdTagEnd::Heading => match self.heading_level {
                Some(level) => (
                    ParseModel { spans: Seq::empty(), heading_level: None, ..self },
                    Some(BlockModel::Heading { level, content: self.spans }),
                ),
                None => (self, None),
            },
            MdTagEnd::CodeBlock => (
                ParseModel {
                    in_code_block: false,
                    code_language: None,
                    code_content: Seq::empty(),
                    ..self
                },
                Some(
                    BlockModel::CodeBlock {
                        language: self.code_language,
                        content: self.code_content,
                    },
                ),
            ),
            MdTagEnd::List => self.end_list(),
            MdTagEnd::Item => (self.end_item(), None),
            MdTagEnd::Table => (
                ParseModel {
                    in_table: false,
                    table_headers: Seq::empty(),
                    table_rows: Seq::empty(),
                    ..self
                },
                Some(BlockModel::Table { headers: self.table_headers, rows: self.table_rows }),
            ),
            MdTagEnd::TableHead => (
                ParseModel {
                    in_table_head: false,
                    table_headers: self.current_row,
                    current_row: Seq::empty(),
                    ..self
                },
                None,
            ),
            MdTagEnd::TableRow => if self.in_table_head {
                (self, None)
            } else {
                (
                    ParseModel {
                        table_rows: self.table_rows.push(self.current_row),
                        current_row: Seq::empty(),
                        ..self
                    },
                    None,
                )
            },
            MdTagEnd::TableCell => (
                ParseModel {
                    current_row: self.current_row.push(self.spans),
                    spans: Seq::empty(),
                    ..self
                },
                None,
            ),
            MdTagEnd::Emphasis => (self.close_format(FormatKind::Italic), None),
            MdTagEnd::Strong => (self.close_format(FormatKind::Bold), None),
            MdTagEnd::Link => (self.close_link(), None),
            MdTagEnd::Other => (self, None),
        }
    }
}

/// The transition of the parser: the state after `event`, and the block that
/// the event completes, if it completes one.
pub open spec fn step(state: ParseModel, event: MdEventModel) -> (ParseModel, Option<BlockModel>) {
    match event {
        MdEventModel::Start(tag) => (state.start_tag(tag), None),
        MdEventModel::End(end) => state.end_tag(end),
        MdEventModel::Text(text) => if state.in_code_block {
            (ParseModel { code_content: state.code_content + text, ..state }, None)
        } else {
            (state.push_span(SpanModel::Text(text)), None)
        },
        MdEventModel::Code(code) => (state.push_span(SpanModel::Code(code)), None),
        MdEventModel::SoftBreak => (state.push_span(SpanModel::Text(" "@)), None),
        MdEventModel::HardBreak => (state.push_span(SpanModel::LineBreak), None),
        MdEventModel::Rule => (state, Some(BlockModel::Rule)),
        MdEventModel::TaskListMarker(checked) => if state.list_stack.len() > 0 {
            (
                state.with_innermost(
                    ListBuilderModel {
                        current_item_checked: Some(checked),
                        ..state.list_stack.last()
                    },
                ),
                None,
            )
        } else {
            (state, None)
        },
        MdEventModel::Other => (state, None),
    }
}

/// `blocks` with the block that an event completed, if any, at its end.
pub open spec fn with_completed(blocks: Seq<BlockModel>, completed: Option<BlockModel>) -> Seq<
    BlockModel,
> {
    match completed {
        Some(block) => blocks.push(block),
        None => blocks,
    }
}

/// The state and the blocks after the events `events[..n]`, starting from
/// `state` and `blocks`.
pub open spec fn run(
    state: ParseModel,
    blocks: Seq<BlockModel>,
    events: Seq<MdEventModel>,
    n: int,
) -> (ParseModel, Seq<BlockModel>)
    decreases n,
{
    if n <= 0 {
        (state, blocks)
    } else {
        let (before, done) = run(state, blocks, events, n - 1);
        let (after, completed) = step(before, events[n - 1]);
        (after, with_completed(done, completed))
    }
}

/// The document that a stream of events describes.
pub open spec fn document_of(events: Seq<MdEventModel>) -> Seq<BlockModel> {
    run(ParseModel::initial(), Seq::empty(), events, events.len() as int).1
}

/// The model of an optional block.
pub open spec fn completed_model(completed: Option<Block>) -> Option<BlockModel> {
    match completed {
        Some(block) => Some(block@),
        None => None,
    }
}

impl ListBuilder {
    /// A builder for a list that has no items yet.
    pub fn new(ordered: bool) -> (builder: ListBuilder)
        ensures
            builder@ == ListBuilderModel::empty(ordered),
    {
        let builder = ListBuilder {
            ordered,
            items: Vec::new(),
            current_item_spans: Vec::new(),
            current_item_checked: None,
        };
        assert(builder@ =~~= ListBuilderModel::empty(ordered));
        builder
    }
}

impl ParseState {
    /// The state before the first event.
    pub fn new() -> (state: ParseState)
        ensures
            state@ == ParseModel::initial(),
    {
        let state = ParseState {
            spans: Vec::new(),
            format_stack: Vec::new(),
            span_stack: Vec::new(),
            heading_level: None,
            in_code_block: false,
            code_language: None,
            code_content: String::new(),
            link_url: None,
            list_stack: Vec::new(),
            in_table: false,
            table_headers: Vec::new(),
            table_rows: Vec::new(),
            current_row: Vec::new(),
            in_table_head: false,
        };
        assert(state@ =~~= ParseModel::initial());
        state
    }
}

/// Adds one span at the end of the inline content.
fn push_span(state: &mut ParseState, span: Span)
    ensures
        final(state)@ == old(state)@.push_span(span@),
{
    state.spans.push(span);
    assert(state@ =~~= old(state)@.push_span(span@));
}

/// Opens an emphasis.
fn open_format(state: &mut ParseState, kind: FormatKind)
    ensures
        final(state)@ == old(state)@.open_format(kind),
{
    state.format_stack.push(kind);
    let spans = take_vec(&mut state.spans);
    state.span_stack.push(spans);
    assert(state@ =~~= old(state)@.open_format(kind));
}

/// Closes an emphasis.
fn close_format(state: &mut ParseState, kind: FormatKind)
    ensures
        final(state)@ == old(state)@.close_format(kind),
{
    let _ = state.format_stack.pop();
    let content = take_vec(&mut state.spans);
    match state.span_stack.pop() {
        Some(mut parent) => {
            let wrapped = match kind {
                FormatKind::Bold => Span::Bold(content),
                FormatKind::Italic => Span::Italic(content),
            };
            parent.push(wrapped);
            state.spans = parent;
        },
        None => {},
    }
    assert(state@ =~~= old(state)@.close_format(kind));
}

/// Opens a link.
fn open_link(state: &mut ParseState, url: String)
    ensures
        final(state)@ == old(state)@.open_link(url@),
{
    state.link_url = Some(url);
    let spans = take_vec(&mut state.spans);
    state.span_stack.push(spans);
    assert(state@ =~~= old(state)@.open_link(url@));
}

/// Closes a link.
fn close_link(state: &mut ParseState)
    ensures
        final(state)@ == old(state)@.close_link(),
{
    let content = take_vec(&mut state.spans);
    match state.span_stack.pop() {
        Some(mut parent) => {
            match state.link_url.take() {
                Some(url) => {
                    parent.push(Span::Link { url, content });
                },
                None => {},
            }
            state.spans = parent;
        },
        None => {},
    }
    assert(state@ =~~= old(state)@.close_link());
}

/// Opens a code block.
fn open_code_block(state: &mut ParseState, language: Option<String>)
    ensures
        final(state)@ == old(state)@.open_code_block(text_model(language)),
{
    state.in_code_block = true;
    state.code_language = language;
    state.code_content = String::new();
    assert(state@ =~~= old(state)@.open_code_block(text_model(language)));
}

/// Handles the opening of an element.
pub fn start_tag(tag: MdTag, state: &mut ParseState)
    ensures
        final(state)@ == old(state)@.start_tag(tag@),
{
    match tag {
        MdTag::Heading(level) => {
            state.heading_level = Some(heading_level_to_u8(level));
        },
        MdTag::FencedCode(info) => {
            let language = if info.as_str().unicode_len() == 0 {
                None
            } else {
                Some(info)
            };
            open_code_block(state, language);
        },
        MdTag::IndentedCode => {
            open_code_block(state, None);
        },
        MdTag::List(first) => {
            state.list_stack.push(ListBuilder::new(first.is_some()));
        },
        MdTag::Item => {
            let ghost before = state@;
            match state.list_stack.pop() {
                Some(mut builder) => {
                    builder.current_item_spans = Vec::new();
                    builder.current_item_checked = None;
                    state.list_stack.push(builder);
                },
                None => {},
            }
        },
        MdTag::Table => {
            state.in_table = true;
            state.table_headers = Vec::new();
            state.table_rows = Vec::new();
        },
        MdTag::TableHead => {
            state.in_table_head = true;
            state.current_row = Vec::new();
        },
        MdTag::TableRow => {
            state.current_row = Vec::new();
        },
        MdTag::TableCell => {
            state.spans = Vec::new();
        },
        MdTag::Emphasis => {
            open_format(state, FormatKind::Italic);
        },
        MdTag::Strong => {
            open_format(state, FormatKind::Bold);
        },
        MdTag::Link(url) => {
            open_link(state, url);
        },
        MdTag::Other => {},
    }
    assert(state@ =~~= old(state)@.start_tag(tag@));
}

/// Whether the content of a paragraph asks for a page break.
pub fn is_page_break(content: &Vec<Span>) -> (b: bool)
    ensures
        b == is_page_break_request(spans_model(content@)),
{
    if content.len() != 1 {
        return false;
    }
    match &content[0] {
        Span::Text(text) => trimmed_equals(text.as_str(), PAGE_BREAK_MARKER),
        _ => false,
    }
}

/// Handles the closing of a paragraph.
fn end_paragraph(state: &mut ParseState) -> (completed: Option<Block>)
    ensures
        (final(state)@, completed_model(completed)) == old(state)@.end_paragraph(),
{
    let ghost before = state@;
    let mut content = take_vec(&mut state.spans);
    let completed = if content.len() == 0 {
        None
    } else if is_page_break(&content) {
        Some(Block::PageBreak)
    } else {
        match state.list_stack.pop() {
            Some(mut builder) => {
                builder.current_item_spans.append(&mut content);
                state.list_stack.push(builder);
                None
            },
            None => {
                if state.in_table {
                    None
                } else {
                    Some(Block::Paragraph { content })
                }
            },
        }
    };
    assert((state@, completed_model(completed)) =~~= before.end_paragraph());
    completed
}

/// Handles the closing of a list item.
fn end_item(state: &mut ParseState)
    ensures
        final(state)@ == old(state)@.end_item(),
{
    let ghost before = state@;
    let mut remaining = take_vec(&mut state.spans);
    match state.list_stack.pop() {
        Some(mut builder) => {
            builder.current_item_spans.append(&mut remaining);
            let content = take_vec(&mut builder.current_item_spans);
            let checked = builder.current_item_checked.take();
            builder.items.push(ListItem { content, nested: None, checked });
            state.list_stack.push(builder);
        },
        None => {},
    }
    assert(state@ =~~= before.end_item());
}

/// Puts `list` under the last item of `builder`, if it has one.
fn attach_nested(builder: &mut ListBuilder, list: List)
    ensures
        final(builder)@ == old(builder)@.attach_nested(list@),
{
    match builder.items.pop() {
        Some(mut last) => {
            last.nested = Some(Box::new(list));
            builder.items.push(last);
        },
        None => {},
    }
    assert(builder@ =~~= old(builder)@.attach_nested(list@));
}

/// Handles the closing of a list.
fn end_list(state: &mut ParseState) -> (completed: Option<Block>)
    ensures
        (final(state)@, completed_model(completed)) == old(state)@.end_list(),
{
    let ghost before = state@;
    let completed = match state.list_stack.pop() {
        Some(builder) => {
            let list = List { ordered: builder.ordered, items: builder.items };
            match state.list_stack.pop() {
                Some(mut outer) => {
                    attach_nested(&mut outer, list);
                    state.list_stack.push(outer);
                    None
                },
                None => Some(Block::List(list)),
            }
        },
        None => None,
    };
    assert((state@, completed_model(completed)) =~~= before.end_list());
    completed
}

/// Handles the closing of an element and returns the block that it
/// completes, if it completes one.
pub fn end_tag(end: MdTagEnd, state: &mut ParseState) -> (completed: Option<Block>)
    ensures
        (final(state)@, completed_model(completed)) == old(state)@.end_tag(end),
{
    let ghost before = state@;
    let completed = match end {
        MdTagEnd::Paragraph => end_paragraph(state),
        MdTagEnd::Heading => {
            match state.heading_level.take() {
                Some(level) => {
                    let content = take_vec(&mut state.spans);
                    Some(Block::Heading { level, content })
                },
                None => None,
            }
        },
        MdTagEnd::CodeBlock => {
            state.in_code_block = false;
            let content = take_string(&mut state.code_content);
            let language = state.code_language.take();
            Some(Block::CodeBlock { language, content })
        },
        MdTagEnd::List => end_list(state),
        MdTagEnd::Item => {
            end_item(state);
            None
        },
        MdTagEnd::Table => {
            state.in_table = false;
            let headers = take_vec(&mut state.table_headers);
            let rows = take_vec(&mut state.table_rows);
            Some(Block::Table { headers, rows })
        },
        MdTagEnd::TableHead => {
            state.in_table_head = false;
            state.table_headers = take_vec(&mut state.current_row);
            None
        },
        MdTagEnd::TableRow => {
            if !state.in_table_head {
                let row = take_vec(&mut state.current_row);
                state.table_rows.push(row);
            }
            None
        },
        MdTagEnd::TableCell => {
            let cell = take_vec(&mut state.spans);
            state.current_row.push(cell);
            None
        },
        MdTagEnd::Emphasis => {
            close_format(state, FormatKind::Italic);
            None
        },
        MdTagEnd::Strong => {
            close_format(state, FormatKind::Bold);
            None
        },
        MdTagEnd::Link => {
            close_link(state);
            None
        },
        MdTagEnd::Other => None,
    };
    assert((state@, completed_model(completed)) =~~= before.end_tag(end));
    completed
}

/// Handles one event and returns the block that it completes, if it
/// completes one.
pub fn advance(event: MdEvent, state: &mut ParseState) -> (completed: Option<Block>)
    ensures
        (final(state)@, completed_model(completed)) == step(old(state)@, event@),
{
    let ghost before = state@;
    let completed = match event {
        MdEvent::Start(tag) => {
            start_tag(tag, state);
            None
        },
        MdEvent::End(end) => end_tag(end, state),
        MdEvent::Text(text) => {
            if state.in_code_block {
                state.code_content.append(text.as_str());
            } else {
                push_span(state, Span::Text(text));
            }
            None
        },
        MdEvent::Code(code) => {
            push_span(state, Span::Code(code));
            None
        },
        MdEvent::SoftBreak => {
            push_span(state, Span::Text(String::from_str(" ")));
            None
        },
        MdEvent::HardBreak => {
            push_span(state, Span::LineBreak);
            None
        },
        MdEvent::Rule => Some(Block::Rule),
        MdEvent::TaskListMarker(checked) => {
            match state.list_stack.pop() {
                Some(mut builder) => {
                    builder.current_item_checked = Some(checked);
                    state.list_stack.push(builder);
                },
                None => {},
            }
            None
        },
        MdEvent::Other => None,
    };
    assert((state@, completed_model(completed)) =~~= step(before, event@));
    completed
}

/// Handles one event: updates the state and, where the event completes a
/// block, adds that block to the document.
pub fn process_event(event: MdEvent, state: &mut ParseState, blocks: &mut Vec<Block>)
    ensures
        final(state)@ == step(old(state)@, event@).0,
        blocks_model(final(blocks)@) == with_completed(
            blocks_model(old(blocks)@),
            step(old(state)@, event@).1,
        ),
        old(state)@.well_formed() ==> final(state)@.well_formed(),
        old(state)@.well_formed() && document_well_formed(blocks_model(old(blocks)@))
            ==> document_well_formed(blocks_model(final(blocks)@)),
{
    let ghost before = blocks_model(blocks@);
    proof {
        if state@.well_formed() {
            lemma_step_invariants(state@, event@);
        }
    }
    match advance(event, state) {
        Some(block) => {
            blocks.push(block);
            proof {
                let after = blocks_model(blocks@);
                assert(after == before.push(block@));
                if old(state)@.well_formed() && document_well_formed(before) {
                    assert forall|i: int| 0 <= i < after.len() implies (#[trigger] after[i]).well_formed(
                    ) by {
                        if i < before.len() {
                            assert(after[i] == before[i]);
                        }
                    }
                }
            }
        },
        None => {},
    }
}

/// No paragraph of the document is a page-break request.
pub open spec fn free_of_page_break_requests(blocks: Seq<BlockModel>) -> bool {
    forall|i: int|
        0 <= i < blocks.len() ==> !(#[trigger] blocks[i] matches BlockModel::Paragraph { content }
            && is_page_break_request(content))
}

/// One transition keeps the state well formed; the block it completes is
/// well formed and is no paragraph that asks for a page break.
pub proof fn lemma_step_invariants(state: ParseModel, event: MdEventModel)
    requires
        state.well_formed(),
    ensures
        step(state, event).0.well_formed(),
        step(state, event).1 matches Some(block) ==> block.well_formed(),
        step(state, event).1 matches Some(BlockModel::Paragraph { content })
            ==> !is_page_break_request(content),
{
}

/// A paragraph that closes with a page-break request as its content gives a
/// page-break block, whatever else the state holds.
pub proof fn lemma_page_break_request(state: ParseModel)
    requires
        is_page_break_request(state.spans),
    ensures
        step(state, MdEventModel::End(MdTagEnd::Paragraph)).1 == Some(BlockModel::PageBreak),
{
}

/// Running the parser keeps the state well formed and the document well
/// formed and free of paragraphs that ask for a page break.
pub proof fn lemma_run_invariants(
    state: ParseModel,
    blocks: Seq<BlockModel>,
    events: Seq<MdEventModel>,
    n: int,
)
    requires
        state.well_formed(),
        document_well_formed(blocks),
        free_of_page_break_requests(blocks),
    ensures
        run(state, blocks, events, n).0.well_formed(),
        document_well_formed(run(state, blocks, events, n).1),
        free_of_page_break_requests(run(state, blocks, events, n).1),
    decreases n,
{
    if n > 0 {
        lemma_run_invariants(state, blocks, events, n - 1);
        let (before, done) = run(state, blocks, events, n - 1);
        lemma_step_invariants(before, events[n - 1]);
    }
}

/// Every heading of a parsed document has a level between 1 and 6, and no
/// paragraph of it is a page-break request.
pub proof fn lemma_document_invariants(events: Seq<MdEventModel>)
    ensures
        document_well_formed(document_of(events)),
        free_of_page_break_requests(document_of(events)),
{
    lemma_run_invariants(ParseModel::initial(), Seq::empty(), events, events.len() as int);
}

/// Folds a stream of events into a document.
pub fn parse_events(events: Vec<MdEvent>) -> (blocks: Vec<Block>)
    ensures
        blocks_model(blocks@) == document_of(events_model(events@)),
        document_well_formed(blocks_model(blocks@)),
        free_of_page_break_requests(blocks_model(blocks@)),
{
    let mut blocks: Vec<Block> = Vec::new();
    let mut state = ParseState::new();
    let ghost stream = events_model(events@);
    assert(blocks_model(blocks@) =~= Seq::empty());
    for event in it: events
        invariant
            it.seq() == events@,
            stream == events_model(events@),
            (state@, blocks_model(blocks@)) == run(
                ParseModel::initial(),
                Seq::empty(),
                stream,
                it.index() as int,
            ),
    {
        assert(stream[it.index() as int] == event@);
        process_event(event, &mut state, &mut blocks);
    }
    proof {
        lemma_document_invariants(stream);
    }
    blocks
}

/// Whether a closing delimiter line stands at index `at`: the closing
/// delimiter occurs there, and the line ends right behind it, with a newline
/// or with the text.
pub open spec fn closes_front_matter(text: Seq<char>, at: int) -> bool {
    &&& matches_at(text, FRONT_MATTER_CLOSE@, at)
    &&& (at + FRONT_MATTER_CLOSE@.len() == text.len() || text[at + FRONT_MATTER_CLOSE@.len()]
        == '\n')
}

/// The index of the first closing delimiter line at or after `from`, if
/// there is one.
pub open spec fn closing_delimiter_from(text: Seq<char>, from: int) -> Option<int>
    decreases text.len() - from + 1,
{
    if 0 <= from && from + FRONT_MATTER_CLOSE@.len() <= text.len() {
        if closes_front_matter(text, from) {
            Some(from)
        } else {
            closing_delimiter_from(text, from + 1)
        }
    } else {
        None
    }
}

/// `text` without its front matter: where the text opens with the
/// delimiter and a closing delimiter line follows, everything through the
/// first such line and the newlines right after it is removed; any other
/// text is left whole.
pub open spec fn without_front_matter(text: Seq<char>) -> Seq<char> {
    if has_prefix(text, FRONT_MATTER_OPEN@) {
        match closing_delimiter_from(text, FRONT_MATTER_OPEN@.len() as int) {
            Some(at) => trim_leading(text.skip(at + FRONT_MATTER_CLOSE@.len()), '\n'),
            None => text,
        }
    } else {
        text
    }
}

/// No closing delimiter line from `from` on means none is found.
pub proof fn lemma_no_closing_delimiter(text: Seq<char>, from: int)
    requires
        forall|at: int| from <= at ==> !closes_front_matter(text, at),
    ensures
        closing_delimiter_from(text, from).is_none(),
    decreases text.len() - from + 1,
{
    if 0 <= from && from + FRONT_MATTER_CLOSE@.len() <= text.len() {
        lemma_no_closing_delimiter(text, from + 1);
    }
}

/// A text without a closing delimiter line is left whole, however it
/// opens: three hyphens at the start of a content line close nothing.
pub proof fn lemma_front_matter_needs_closing_line(text: Seq<char>)
    requires
        forall|at: int| !closes_front_matter(text, at),
    ensures
        without_front_matter(text) == text,
{
    lemma_no_closing_delimiter(text, FRONT_MATTER_OPEN@.len() as int);
}

/// The index of the first closing delimiter line at or after `from`.
pub fn find_closing_delimiter(text: &Vec<char>, from: usize) -> (found: Option<usize>)
    ensures
        match found {
            Some(at) => closing_delimiter_from(text@, from as int) == Some(at as int)
                && closes_front_matter(text@, at as int),
            None => closing_delimiter_from(text@, from as int).is_none(),
        },
{
    let close = chars_of(FRONT_MATTER_CLOSE);
    let n = text.len();
    if close.len() > n || from > n - close.len() {
        return None;
    }
    let last = n - close.len();
    let mut at: usize = from;
    loop
        invariant
            from <= at <= last,
            n == text@.len(),
            close@ == FRONT_MATTER_CLOSE@,
            last + close@.len() == n,
            closing_delimiter_from(text@, from as int) == closing_delimiter_from(text@, at as int),
        decreases last - at,
    {
        if match_at(text, &close, at) && (at == last || text[at + close.len()] == '\n') {
            return Some(at);
        }
        if at == last {
            assert(closing_delimiter_from(text@, at + 1).is_none());
            return None;
        }
        at += 1;
    }
}

/// Skipping a run of `c` that ends at `k` is what `trim_leading` does.
pub proof fn lemma_trim_leading(s: Seq<char>, c: char, k: int)
    requires
        0 <= k <= s.len(),
        forall|j: int| 0 <= j < k ==> s[j] == c,
        k == s.len() || s[k] != c,
    ensures
        trim_leading(s, c) == s.skip(k),
    decreases k,
{
    if k == 0 {
        assert(s.skip(0) == s);
    } else {
        let rest = s.drop_first();
        assert forall|j: int| 0 <= j < k - 1 implies rest[j] == c by {
            assert(rest[j] == s[j + 1]);
        }
        lemma_trim_leading(rest, c, k - 1);
        assert(rest.skip(k - 1) == s.skip(k));
    }
}

/// Strips front matter from the beginning of a Markdown text.
pub fn strip_frontmatter(markdown: &str) -> (rest: &str)
    ensures
        rest@ == without_front_matter(markdown@),
{
    let chars = chars_of(markdown);
    let open = chars_of(FRONT_MATTER_OPEN);
    let close = chars_of(FRONT_MATTER_CLOSE);
    if !match_at(&chars, &open, 0) {
        return markdown;
    }
    match find_closing_delimiter(&chars, open.len()) {
        Some(at) => {
            let n = chars.len();
            let from = at + close.len();
            let mut start = from;
            while start < n && chars[start] == '\n'
                invariant
                    from <= start <= n,
                    n == chars@.len(),
                    forall|j: int| from <= j < start ==> chars@[j] == '\n',
                decreases n - start,
            {
                start += 1;
            }
            proof {
                let tail = chars@.skip(from as int);
                assert forall|j: int| 0 <= j < start - from implies tail[j] == '\n' by {
                    assert(tail[j] == chars@[j + from]);
                }
                lemma_trim_leading(tail, '\n', start - from);
                assert(tail.skip(start - from) == chars@.subrange(start as int, n as int));
            }
            markdown.substring_char(start, n)
        },
        None => markdown,
    }
}

/// Parses Markdown text into the blocks of a document.
///
/// Front matter is removed, the rest is tokenised, and the events are folded
/// into blocks. The function is total: every text gives a document.
pub fn parse(markdown: &str) -> (blocks: Vec<Block>)
    ensures
        blocks_model(blocks@) == document_of(markdown_events(without_front_matter(markdown@))),
        document_well_formed(blocks_model(blocks@)),
        free_of_page_break_requests(blocks_model(blocks@)),
{
    let body = strip_frontmatter(markdown);
    let events = tokenize(body);
    parse_events(events)
}

} // verus!

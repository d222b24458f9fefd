//! The document model: a tree of blocks holding inline spans.
//!
//! Every executable type has a mathematical model over `Seq`, reached with
//! `@`. Contracts elsewhere in the crate are stated over these models.

use vstd::prelude::*;

verus! {

/// Inline text spans with formatting.
#[derive(Debug, PartialEq, Eq)]
pub enum Span {
    Text(String),
    Bold(Vec<Span>),
    Italic(Vec<Span>),
    Code(String),
    Link { url: String, content: Vec<Span> },
    LineBreak,
}

/// A single list item, which can hold a nested list.
#[derive(Debug, PartialEq, Eq)]
pub struct ListItem {
    pub content: Vec<Span>,
    pub nested: Option<Box<List>>,
    /// For task lists: `None` is not a task, `Some(false)` unchecked,
    /// `Some(true)` checked.
    pub checked: Option<bool>,
}

/// A list, ordered or unordered.
#[derive(Debug, PartialEq, Eq)]
pub struct List {
    pub ordered: bool,
    pub items: Vec<ListItem>,
}

/// Block-level elements of a document.
#[derive(Debug, PartialEq, Eq)]
#[allow(inconsistent_fields)]
pub enum Block {
    Heading { level: u8, content: Vec<Span> },
    Paragraph { content: Vec<Span> },
    CodeBlock { language: Option<String>, content: String },
    List(List),
    Table { headers: Vec<Vec<Span>>, rows: Vec<Vec<Vec<Span>>> },
    Rule,
    PageBreak,
}

/// Model of a [`Span`].
#[verifier::ext_equal]
pub enum SpanModel {
    Text(Seq<char>),
    Bold(Seq<SpanModel>),
    Italic(Seq<SpanModel>),
    Code(Seq<char>),
    Link { url: Seq<char>, content: Seq<SpanModel> },
    LineBreak,
}

/// Model of a [`ListItem`].
#[verifier::ext_equal]
pub struct ListItemModel {
    pub content: Seq<SpanModel>,
    pub nested: Option<ListModel>,
    pub checked: Option<bool>,
}

/// Model of a [`List`].
#[verifier::ext_equal]
pub struct ListModel {
    pub ordered: bool,
    pub items: Seq<ListItemModel>,
}

/// Model of a [`Block`].
#[verifier::ext_equal]
#[allow(inconsistent_fields)]
pub enum BlockModel {
    Heading { level: u8, content: Seq<SpanModel> },
    Paragraph { content: Seq<SpanModel> },
    CodeBlock { language: Option<Seq<char>>, content: Seq<char> },
    List(ListModel),
    Table { headers: Seq<Seq<SpanModel>>, rows: Seq<Seq<Seq<SpanModel>>> },
    Rule,
    PageBreak,
}

/// The model of one span.
pub open spec fn span_model(span: Span) -> SpanModel
    decreases span, 0int,
{
    match span {
        Span::Text(text) => SpanModel::Text(text@),
        Span::Bold(inner) => SpanModel::Bold(spans_model(inner@)),
        Span::Italic(inner) => SpanModel::Italic(spans_model(inner@)),
        Span::Code(text) => SpanModel::Code(text@),
        Span::Link { url, content } => SpanModel::Link {
            url: url@,
            content: spans_model(content@),
        },
        Span::LineBreak => SpanModel::LineBreak,
    }
}

/// The models of a sequence of spans, in order.
pub open spec fn spans_model(spans: Seq<Span>) -> Seq<SpanModel>
    decreases spans, 1int,
{
    Seq::new(
        spans.len(),
        |i: int|
            if 0 <= i < spans.len() {
                span_model(spans[i])
            } else {
                SpanModel::LineBreak
            },
    )
}

/// The model of one list item.
pub open spec fn item_model(item: ListItem) -> ListItemModel
    decreases item, 0int,
{
    ListItemModel {
        content: spans_model(item.content@),
        nested: match item.nested {
            Some(list) => Some(list_model(*list)),
            None => None,
        },
        checked: item.checked,
    }
}

/// The models of a sequence of list items, in order.
pub open spec fn items_model(items: Seq<ListItem>) -> Seq<ListItemModel>
    decreases items, 1int,
{
    Seq::new(
        items.len(),
        |i: int|
            if 0 <= i < items.len() {
                item_model(items[i])
            } else {
                ListItemModel { content: Seq::empty(), nested: None, checked: None }
            },
    )
}

/// The model of a list.
pub open spec fn list_model(list: List) -> ListModel
    decreases list, 2int,
{
    ListModel { ordered: list.ordered, items: items_model(list.items@) }
}

/// The models of the cells of one table row.
pub open spec fn cells_model(cells: Seq<Vec<Span>>) -> Seq<Seq<SpanModel>> {
    Seq::new(cells.len(), |i: int| spans_model(cells[i]@))
}

/// The models of the rows of a table.
pub open spec fn rows_model(rows: Seq<Vec<Vec<Span>>>) -> Seq<Seq<Seq<SpanModel>>> {
    Seq::new(rows.len(), |i: int| cells_model(rows[i]@))
}

/// The model of one block.
pub open spec fn block_model(block: Block) -> BlockModel {
    match block {
        Block::Heading { level, content } => BlockModel::Heading {
            level,
            content: spans_model(content@),
        },
        Block::Paragraph { content } => BlockModel::Paragraph { content: spans_model(content@) },
        Block::CodeBlock { language, content } => BlockModel::CodeBlock {
            language: text_model(language),
            content: content@,
        },
        Block::List(list) => BlockModel::List(list_model(list)),
        Block::Table { headers, rows } => BlockModel::Table {
            headers: cells_model(headers@),
            rows: rows_model(rows@),
        },
        Block::Rule => BlockModel::Rule,
        Block::PageBreak => BlockModel::PageBreak,
    }
}

/// The model of an optional string.
pub open spec fn text_model(text: Option<String>) -> Option<Seq<char>> {
    match text {
        Some(text) => Some(text@),
        None => None,
    }
}

/// The models of the blocks of a document, in order.
pub open spec fn blocks_model(blocks: Seq<Block>) -> Seq<BlockModel> {
    Seq::new(blocks.len(), |i: int| block_model(blocks[i]))
}

impl View for Span {
    type V = SpanModel;

    open spec fn view(&self) -> SpanModel {
        span_model(*self)
    }
}

impl View for ListItem {
    type V = ListItemModel;

    open spec fn view(&self) -> ListItemModel {
        item_model(*self)
    }
}

impl View for List {
    type V = ListModel;

    open spec fn view(&self) -> ListModel {
        list_model(*self)
    }
}

impl View for Block {
    type V = BlockModel;

    open spec fn view(&self) -> BlockModel {
        block_model(*self)
    }
}

impl BlockModel {
    /// A heading level lies between 1 and 6.
    pub open spec fn well_formed(self) -> bool {
        self matches BlockModel::Heading { level, .. } ==> 1 <= level <= 6
    }
}

/// Every block of the document is well formed.
pub open spec fn document_well_formed(blocks: Seq<BlockModel>) -> bool {
    forall|i: int| 0 <= i < blocks.len() ==> (#[trigger] blocks[i]).well_formed()
}

/// A copy of an optional string.
fn clone_text(text: &Option<String>) -> (copy: Option<String>)
    ensures
        text_model(copy) == text_model(*text),
{
    match text {
        Some(text) => Some(text.clone()),
        None => None,
    }
}

/// A copy of a sequence of spans.
fn clone_spans(spans: &Vec<Span>) -> (copy: Vec<Span>)
    ensures
        spans_model(copy@) == spans_model(spans@),
    decreases spans, 1int,
{
    let mut copy: Vec<Span> = Vec::new();
    let mut i: usize = 0;
    while i < spans.len()
        invariant
            i <= spans.len(),
            copy@.len() == i,
            spans_model(copy@) == spans_model(spans@).take(i as int),
        decreases spans.len() - i,
    {
        let ghost before = copy@;
        let span = clone_span(&spans[i]);
        copy.push(span);
        assert(spans_model(copy@) == spans_model(before).push(span@));
        assert(spans_model(spans@).take(i + 1) == spans_model(spans@).take(i as int).push(
            spans[i as int]@,
        ));
        i += 1;
    }
    assert(spans_model(spans@).take(i as int) == spans_model(spans@));
    copy
}

/// A copy of one span.
fn clone_span(span: &Span) -> (copy: Span)
    ensures
        copy@ == span@,
    decreases span, 0int,
{
    match span {
        Span::Text(text) => Span::Text(text.clone()),
        Span::Bold(inner) => Span::Bold(clone_spans(inner)),
        Span::Italic(inner) => Span::Italic(clone_spans(inner)),
        Span::Code(text) => Span::Code(text.clone()),
        Span::Link { url, content } => Span::Link {
            url: url.clone(),
            content: clone_spans(content),
        },
        Span::LineBreak => Span::LineBreak,
    }
}

/// A copy of the cells of a table row.
fn clone_cells(cells: &Vec<Vec<Span>>) -> (copy: Vec<Vec<Span>>)
    ensures
        cells_model(copy@) == cells_model(cells@),
{
    let mut copy: Vec<Vec<Span>> = Vec::new();
    let mut i: usize = 0;
    while i < cells.len()
        invariant
            i <= cells.len(),
            copy@.len() == i,
            cells_model(copy@) == cells_model(cells@).take(i as int),
        decreases cells.len() - i,
    {
        let ghost before = copy@;
        let cell = clone_spans(&cells[i]);
        copy.push(cell);
        assert(cells_model(copy@) == cells_model(before).push(spans_model(cell@)));
        assert(cells_model(cells@).take(i + 1) == cells_model(cells@).take(i as int).push(
            spans_model(cells[i as int]@),
        ));
        i += 1;
    }
    assert(cells_model(cells@).take(i as int) == cells_model(cells@));
    copy
}

/// A copy of the rows of a table.
fn clone_rows(rows: &Vec<Vec<Vec<Span>>>) -> (copy: Vec<Vec<Vec<Span>>>)
    ensures
        rows_model(copy@) == rows_model(rows@),
{
    let mut copy: Vec<Vec<Vec<Span>>> = Vec::new();
    let mut i: usize = 0;
    while i < rows.len()
        invariant
            i <= rows.len(),
            copy@.len() == i,
            rows_model(copy@) == rows_model(rows@).take(i as int),
        decreases rows.len() - i,
    {
        let ghost before = copy@;
        let row = clone_cells(&rows[i]);
        copy.push(row);
        assert(rows_model(copy@) == rows_model(before).push(cells_model(row@)));
        assert(rows_model(rows@).take(i + 1) == rows_model(rows@).take(i as int).push(
            cells_model(rows[i as int]@),
        ));
        i += 1;
    }
    assert(rows_model(rows@).take(i as int) == rows_model(rows@));
    copy
}

/// A copy of a list, nested lists included.
fn clone_list(list: &List) -> (copy: List)
    ensures
        copy@ == list@,
    decreases list,
{
    let mut items: Vec<ListItem> = Vec::new();
    let mut i: usize = 0;
    while i < list.items.len()
        invariant
            i <= list.items.len(),
            items@.len() == i,
            items_model(items@) == items_model(list.items@).take(i as int),
        decreases list.items.len() - i,
    {
        let ghost before = items@;
        let item = &list.items[i];
        let nested = match &item.nested {
            Some(inner) => Some(Box::new(clone_list(inner))),
            None => None,
        };
        let copied = ListItem { content: clone_spans(&item.content), nested, checked: item.checked };
        assert(copied@ == item@);
        items.push(copied);
        assert(items_model(items@) == items_model(before).push(copied@));
        assert(items_model(list.items@).take(i + 1) == items_model(list.items@).take(
            i as int,
        ).push(list.items[i as int]@));
        i += 1;
    }
    assert(items_model(list.items@).take(i as int) == items_model(list.items@));
    List { ordered: list.ordered, items }
}

impl Clone for Span {
    fn clone(&self) -> (copy: Span)
        ensures
            copy@ == self@,
    {
        clone_span(self)
    }
}

impl Clone for List {
    fn clone(&self) -> (copy: List)
        ensures
            copy@ == self@,
    {
        clone_list(self)
    }
}

impl Clone for ListItem {
    fn clone(&self) -> (copy: ListItem)
        ensures
            copy@ == self@,
    {
        let nested = match &self.nested {
            Some(inner) => Some(Box::new(clone_list(inner))),
            None => None,
        };
        ListItem { content: clone_spans(&self.content), nested, checked: self.checked }
    }
}

impl Clone for Block {
    fn clone(&self) -> (copy: Block)
        ensures
            copy@ == self@,
    {
        match self {
            Block::Heading { level, content } => Block::Heading {
                level: *level,
                content: clone_spans(content),
            },
            Block::Paragraph { content } => Block::Paragraph { content: clone_spans(content) },
            Block::CodeBlock { language, content } => Block::CodeBlock {
                language: clone_text(language),
                content: content.clone(),
            },
            Block::List(list) => Block::List(clone_list(list)),
            Block::Table { headers, rows } => Block::Table {
                headers: clone_cells(headers),
                rows: clone_rows(rows),
            },
            Block::Rule => Block::Rule,
            Block::PageBreak => Block::PageBreak,
        }
    }
}

} // verus!

//! The markup of inline content, headings, lists and tables.
//!
//! Each construct of the document model has a spec function that says what
//! text stands for it, and an executable function that appends exactly that
//! text to the output.

use crate::block::{
    cells_model, items_model, rows_model, spans_model, List, ListItemModel, ListModel, Span,
    SpanModel,
};
use crate::text::{
    ascii_alphanumeric, ascii_lower, cap, chars_of, decimal, is_ascii_alphanumeric, lemma_cap_sum,
    push_chars, push_decimal, push_repeated, repeated, saturating_sum, to_ascii_lower,
    unicode_whitespace,
};
use vstd::prelude::*;
use vstd::string::*;

verus! {

/// Opens a group that the typesetter keeps on one page.
pub const BLOCK_OPEN: &'static str = "#block(breakable: false)[\n";

/// Closes a group opened with [`BLOCK_OPEN`].
pub const BLOCK_CLOSE: &'static str = "]\n\n";

/// A forced line break inside a paragraph.
pub const LINE_BREAK: &'static str = " \\\n";

/// Opens a reference to a label of the document.
pub const ANCHOR_LINK_OPEN: &'static str = "#link(<";

/// Stands between the label of a reference and its content.
pub const ANCHOR_LINK_MIDDLE: &'static str = ">)[";

/// Opens a hyperlink.
pub const URL_LINK_OPEN: &'static str = "#link(\"";

/// Stands between the destination of a hyperlink and its content.
pub const URL_LINK_MIDDLE: &'static str = "\")[";

/// One step of indentation of a nested list.
pub const INDENT_UNIT: &'static str = "  ";

/// Opens a table.
pub const TABLE_OPEN: &'static str = "#table(\n";

/// Introduces the number of columns of a table.
pub const TABLE_COLUMNS: &'static str = "  columns: ";

/// Ends an argument of a table.
pub const TABLE_ARGUMENT_END: &'static str = ",\n";

/// Opens a header cell, whose content is bold.
pub const HEADER_CELL_OPEN: &'static str = "  [*";

/// Closes a header cell.
pub const HEADER_CELL_CLOSE: &'static str = "*],\n";

/// Opens a body cell.
pub const BODY_CELL_OPEN: &'static str = "  [";

/// Closes a body cell.
pub const BODY_CELL_CLOSE: &'static str = "],\n";

/// Closes a table.
pub const TABLE_CLOSE: &'static str = ")\n";

/// The three places where text is escaped, each with its own set of
/// characters that need a backslash.
#[derive(Debug, Clone, Copy, PartialEq, Eq)]
pub enum Escape {
    /// Literal text.
    Markup,
    /// The inside of an inline code span.
    Code,
    /// The destination of a hyperlink, inside double quotes.
    Url,
}

/// The characters that mean something to the markup language.
pub open spec fn is_reserved(c: char) -> bool {
    c == '#' || c == '*' || c == '_' || c == '@' || c == '$' || c == '\\' || c == '`' || c == '<'
        || c == '>' || c == '[' || c == ']'
}

/// Whether `c` gets a backslash in the given place.
pub open spec fn needs_escape(place: Escape, c: char) -> bool {
    match place {
        Escape::Markup => is_reserved(c),
        Escape::Code => c == '`',
        Escape::Url => c == '\\' || c == '"',
    }
}

/// One character, escaped for the given place.
pub open spec fn escaped_char(place: Escape, c: char) -> Seq<char> {
    if needs_escape(place, c) {
        seq!['\\', c]
    } else {
        seq![c]
    }
}

/// A text, escaped character by character for the given place.
pub open spec fn escaped(place: Escape, text: Seq<char>) -> Seq<char>
    decreases text.len(),
{
    if text.len() == 0 {
        Seq::empty()
    } else {
        escaped(place, text.drop_last()) + escaped_char(place, text.last())
    }
}

/// The number of characters of a text that get a backslash.
pub open spec fn escape_count(place: Escape, text: Seq<char>) -> nat
    decreases text.len(),
{
    if text.len() == 0 {
        0
    } else {
        escape_count(place, text.drop_last()) + if needs_escape(place, text.last()) {
            1nat
        } else {
            0nat
        }
    }
}

/// A text read back from its escaped form: a backslash yields the character
/// after it.
pub open spec fn unescaped(text: Seq<char>) -> Seq<char>
    decreases text.len(),
{
    if text.len() == 0 {
        Seq::empty()
    } else if text[0] == '\\' && text.len() >= 2 {
        seq![text[1]] + unescaped(text.skip(2))
    } else {
        seq![text[0]] + unescaped(text.skip(1))
    }
}

/// The markup of one span.
pub open spec fn span_markup(span: SpanModel) -> Seq<char>
    decreases span, 0int,
{
    match span {
        SpanModel::Text(text) => escaped(Escape::Markup, text),
        SpanModel::Bold(inner) => seq!['*'] + spans_markup(inner) + seq!['*'],
        SpanModel::Italic(inner) => seq!['_'] + spans_markup(inner) + seq!['_'],
        SpanModel::Code(text) => seq!['`'] + escaped(Escape::Code, text) + seq!['`'],
        SpanModel::Link { url, content } => if url.len() > 0 && url[0] == '#' {
            ANCHOR_LINK_OPEN@ + url.skip(1) + ANCHOR_LINK_MIDDLE@ + spans_markup(content) + seq![
                ']',
            ]
        } else {
            URL_LINK_OPEN@ + escaped(Escape::Url, url) + URL_LINK_MIDDLE@ + spans_markup(content)
                + seq![']']
        },
        SpanModel::LineBreak => LINE_BREAK@,
    }
}

/// The markup of a sequence of spans: the markup of each, in order.
pub open spec fn spans_markup(spans: Seq<SpanModel>) -> Seq<char>
    decreases spans, 1int,
{
    if spans.len() == 0 {
        Seq::empty()
    } else {
        spans_markup(spans.drop_last()) + span_markup(spans.last())
    }
}

/// The plain text of one span: formatting is dropped, a line break reads as
/// a space.
pub open spec fn plain_text(span: SpanModel) -> Seq<char>
    decreases span, 0int,
{
    match span {
        SpanModel::Text(text) => text,
        SpanModel::Bold(inner) => plain_texts(inner),
        SpanModel::Italic(inner) => plain_texts(inner),
        SpanModel::Code(text) => text,
        SpanModel::Link { url, content } => plain_texts(content),
        SpanModel::LineBreak => seq![' '],
    }
}

/// The plain text of a sequence of spans.
pub open spec fn plain_texts(spans: Seq<SpanModel>) -> Seq<char>
    decreases spans, 1int,
{
    if spans.len() == 0 {
        Seq::empty()
    } else {
        plain_texts(spans.drop_last()) + plain_text(spans.last())
    }
}

/// What one character of a heading's text turns into on its way into the
/// label: whitespace becomes a hyphen, letters become lower case.
pub open spec fn label_form(c: char) -> char {
    if unicode_whitespace(c) {
        '-'
    } else {
        ascii_lower(c)
    }
}

/// Whether a character may stand in a label.
pub open spec fn label_keeps(c: char) -> bool {
    ascii_alphanumeric(c) || c == '-'
}

/// The label made of a text: each character in its label form, those kept
/// that may stand in a label.
pub open spec fn label_of(text: Seq<char>) -> Seq<char>
    decreases text.len(),
{
    if text.len() == 0 {
        Seq::empty()
    } else if label_keeps(label_form(text.last())) {
        label_of(text.drop_last()).push(label_form(text.last()))
    } else {
        label_of(text.drop_last())
    }
}

/// The anchor label of a heading with the given content.
pub open spec fn heading_label(content: Seq<SpanModel>) -> Seq<char> {
    label_of(plain_texts(content))
}

/// The label of a heading as it stands after the heading's text: nothing
/// for an empty label.
pub open spec fn label_suffix(label: Seq<char>) -> Seq<char> {
    if label.len() > 0 {
        seq![' ', '<'] + label + seq!['>']
    } else {
        Seq::empty()
    }
}

/// The markup of a heading: one `=` per level, a space, the content, the
/// label, and a blank line.
pub open spec fn heading_markup(level: u8, content: Seq<SpanModel>) -> Seq<char> {
    repeated('=', level as nat) + seq![' '] + spans_markup(content) + label_suffix(
        heading_label(content),
    ) + seq!['\n', '\n']
}

/// Escaping goes through a text from front to back: the escaped form of two
/// texts joined is their escaped forms joined.
pub proof fn lemma_escaped_concat(place: Escape, a: Seq<char>, b: Seq<char>)
    ensures
        escaped(place, a + b) == escaped(place, a) + escaped(place, b),
    decreases b.len(),
{
    if b.len() == 0 {
        assert(a + b == a);
    } else {
        lemma_escaped_concat(place, a, b.drop_last());
        assert((a + b).drop_last() == a + b.drop_last());
    }
}

/// Escaping adds exactly one character for each character that needs a
/// backslash, and none for any other.
pub proof fn lemma_escaped_len(place: Escape, text: Seq<char>)
    ensures
        escaped(place, text).len() == text.len() + escape_count(place, text),
    decreases text.len(),
{
    if text.len() > 0 {
        lemma_escaped_len(place, text.drop_last());
    }
}

/// Literal text and link destinations are escaped exactly once: reading the
/// escaped form back gives the text itself.
pub proof fn lemma_unescaped_escaped(place: Escape, text: Seq<char>)
    requires
        place != Escape::Code,
    ensures
        unescaped(escaped(place, text)) == text,
    decreases text.len(),
{
    if text.len() > 0 {
        let first = seq![text[0]];
        let rest = text.drop_first();
        assert(text == first + rest);
        lemma_escaped_concat(place, first, rest);
        assert(escaped(place, first) == escaped_char(place, text[0])) by {
            reveal_with_fuel(escaped, 2);
            assert(first.drop_last() == Seq::<char>::empty());
        }
        lemma_unescaped_escaped(place, rest);
        let whole = escaped(place, text);
        if needs_escape(place, text[0]) {
            assert(whole.skip(2) == escaped(place, rest));
        } else {
            assert(whole.skip(1) == escaped(place, rest));
        }
    }
}

/// A text without reserved characters is its own markup.
pub proof fn lemma_escaped_plain(place: Escape, text: Seq<char>)
    requires
        forall|i: int| 0 <= i < text.len() ==> !needs_escape(place, text[i]),
    ensures
        escaped(place, text) == text,
    decreases text.len(),
{
    if text.len() > 0 {
        lemma_escaped_plain(place, text.drop_last());
        assert(text.drop_last().push(text.last()) == text);
    }
}

/// The alphabet of labels: lower-case ASCII letters, ASCII digits and the
/// hyphen.
pub open spec fn is_label_char(c: char) -> bool {
    ('a' <= c && c <= 'z') || ('0' <= c && c <= '9') || c == '-'
}

/// Every character of a text is one of the alphabet of labels.
pub open spec fn is_label(text: Seq<char>) -> bool {
    forall|i: int| 0 <= i < text.len() ==> is_label_char(#[trigger] text[i])
}

/// A label holds nothing but lower-case ASCII letters, ASCII digits and
/// hyphens, and is never longer than the text it is made of.
pub proof fn lemma_label_alphabet(text: Seq<char>)
    ensures
        is_label(label_of(text)),
        label_of(text).len() <= text.len(),
    decreases text.len(),
{
    if text.len() > 0 {
        lemma_label_alphabet(text.drop_last());
        let shorter = label_of(text.drop_last());
        assert forall|i: int| 0 <= i < label_of(text).len() implies is_label_char(
            #[trigger] label_of(text)[i],
        ) by {
            if i < shorter.len() {
                assert(label_of(text)[i] == shorter[i]);
            }
        }
    }
}

/// A text over the alphabet of labels is its own label.
pub proof fn lemma_label_of_label(text: Seq<char>)
    requires
        is_label(text),
    ensures
        label_of(text) == text,
    decreases text.len(),
{
    if text.len() > 0 {
        let shorter = text.drop_last();
        assert forall|i: int| 0 <= i < shorter.len() implies is_label_char(
            #[trigger] shorter[i],
        ) by {
            assert(shorter[i] == text[i]);
        }
        lemma_label_of_label(shorter);
        assert(is_label_char(text[text.len() - 1]));
        assert(shorter.push(text.last()) == text);
    }
}

/// Making a label is idempotent: the label of a heading whose text is a
/// label is that label.
pub proof fn lemma_label_idempotent(content: Seq<SpanModel>)
    ensures
        heading_label(seq![SpanModel::Text(heading_label(content))]) == heading_label(content),
{
    let label = heading_label(content);
    lemma_label_alphabet(plain_texts(content));
    lemma_label_of_label(label);
    let again = seq![SpanModel::Text(label)];
    assert(again.drop_last() == Seq::<SpanModel>::empty());
    assert(plain_texts(again) == label) by {
        reveal_with_fuel(plain_texts, 2);
    }
}

/// Whether `c` gets a backslash in the given place.
pub fn escape_needed(place: Escape, c: char) -> (b: bool)
    ensures
        b == needs_escape(place, c),
{
    match place {
        Escape::Markup => c == '#' || c == '*' || c == '_' || c == '@' || c == '$' || c == '\\'
            || c == '`' || c == '<' || c == '>' || c == '[' || c == ']',
        Escape::Code => c == '`',
        Escape::Url => c == '\\' || c == '"',
    }
}

/// Appends `text`, escaped for the given place.
pub fn push_escaped(out: &mut String, text: &str, place: Escape)
    ensures
        final(out)@ == old(out)@ + escaped(place, text@),
{
    broadcast use vstd::string::group_string_axioms;

    assert(text@.take(0) == Seq::<char>::empty());
    for c in it: text.chars()
        invariant
            it.seq() == text@,
            out@ == old(out)@ + escaped(place, text@.take(it.index() as int)),
    {
        assert(text@.take(it.index() + 1).drop_last() == text@.take(it.index() as int));
        if escape_needed(place, c) {
            out.push('\\');
        }
        out.push(c);
    }
    assert(text@.take(text@.len() as int) == text@);
}

/// Appends the markup of one span.
pub fn span_to_typst(span: &Span, out: &mut String)
    ensures
        final(out)@ == old(out)@ + span_markup(span@),
    decreases span, 0int,
{
    match span {
        Span::Text(text) => {
            push_escaped(out, text.as_str(), Escape::Markup);
        },
        Span::Bold(inner) => {
            out.push('*');
            spans_to_typst(inner, out);
            out.push('*');
        },
        Span::Italic(inner) => {
            out.push('_');
            spans_to_typst(inner, out);
            out.push('_');
        },
        Span::Code(text) => {
            out.push('`');
            push_escaped(out, text.as_str(), Escape::Code);
            out.push('`');
        },
        Span::Link { url, content } => {
            let target = chars_of(url.as_str());
            if target.len() > 0 && target[0] == '#' {
                out.append(ANCHOR_LINK_OPEN);
                push_chars(out, &target, 1, target.len());
                out.append(ANCHOR_LINK_MIDDLE);
            } else {
                out.append(URL_LINK_OPEN);
                push_escaped(out, url.as_str(), Escape::Url);
                out.append(URL_LINK_MIDDLE);
            }
            spans_to_typst(content, out);
            out.push(']');
        },
        Span::LineBreak => {
            out.append(LINE_BREAK);
        },
    }
}

/// Appends the markup of a sequence of spans.
pub fn spans_to_typst(spans: &Vec<Span>, out: &mut String)
    ensures
        final(out)@ == old(out)@ + spans_markup(spans_model(spans@)),
    decreases spans, 1int,
{
    let ghost model = spans_model(spans@);
    let mut i: usize = 0;
    assert(model.take(0) == Seq::<SpanModel>::empty());
    while i < spans.len()
        invariant
            i <= spans.len(),
            model == spans_model(spans@),
            out@ == old(out)@ + spans_markup(model.take(i as int)),
        decreases spans.len() - i,
    {
        assert(model.take(i + 1).drop_last() == model.take(i as int));
        assert(model.take(i + 1).last() == spans[i as int]@);
        span_to_typst(&spans[i], out);
        i += 1;
    }
    assert(model.take(i as int) == model);
}

/// Appends the plain text of a sequence of spans.
pub fn collect_span_text(spans: &Vec<Span>, out: &mut String)
    ensures
        final(out)@ == old(out)@ + plain_texts(spans_model(spans@)),
    decreases spans,
{
    let ghost model = spans_model(spans@);
    let mut i: usize = 0;
    assert(model.take(0) == Seq::<SpanModel>::empty());
    while i < spans.len()
        invariant
            i <= spans.len(),
            model == spans_model(spans@),
            out@ == old(out)@ + plain_texts(model.take(i as int)),
        decreases spans.len() - i,
    {
        assert(model.take(i + 1).drop_last() == model.take(i as int));
        assert(model.take(i + 1).last() == spans[i as int]@);
        let ghost before = out@;
        match &spans[i] {
            Span::Text(text) => {
                out.append(text.as_str());
            },
            Span::Bold(inner) => {
                collect_span_text(inner, out);
            },
            Span::Italic(inner) => {
                collect_span_text(inner, out);
            },
            Span::Code(text) => {
                out.append(text.as_str());
            },
            Span::Link { url, content } => {
                collect_span_text(content, out);
            },
            Span::LineBreak => {
                out.push(' ');
            },
        }
        assert(out@ == before + plain_text(spans[i as int]@));
        i += 1;
    }
    assert(model.take(i as int) == model);
}

/// The anchor label of a heading: its plain text in lower case, with hyphens
/// for whitespace, reduced to ASCII letters, digits and hyphens.
pub fn heading_to_label(spans: &Vec<Span>) -> (label: String)
    ensures
        label@ == heading_label(spans_model(spans@)),
        is_label(label@),
        label@.len() <= plain_texts(spans_model(spans@)).len(),
{
    broadcast use vstd::string::group_string_axioms;

    proof {
        lemma_label_alphabet(plain_texts(spans_model(spans@)));
    }

    let mut text = String::new();
    collect_span_text(spans, &mut text);
    assert(text@ == plain_texts(spans_model(spans@)));
    let mut label = String::new();
    assert(text@.take(0) == Seq::<char>::empty());
    for c in it: text.as_str().chars()
        invariant
            it.seq() == text@,
            label@ == label_of(text@.take(it.index() as int)),
    {
        assert(text@.take(it.index() + 1).drop_last() == text@.take(it.index() as int));
        let form = if c.is_whitespace() {
            '-'
        } else {
            to_ascii_lower(c)
        };
        if is_ascii_alphanumeric(form) || form == '-' {
            label.push(form);
        }
    }
    assert(text@.take(text@.len() as int) == text@);
    label
}

/// Appends the markup of a heading.
pub fn push_heading(level: u8, content: &Vec<Span>, out: &mut String)
    ensures
        final(out)@ == old(out)@ + heading_markup(level, spans_model(content@)),
{
    push_repeated(out, '=', level as usize);
    out.push(' ');
    spans_to_typst(content, out);
    let label = heading_to_label(content);
    if label.as_str().unicode_len() > 0 {
        out.push(' ');
        out.push('<');
        out.append(label.as_str());
        out.push('>');
    }
    out.push('\n');
    out.push('\n');
}

/// The marker of a list item: `+` in an ordered list, `-` in an unordered
/// one.
pub open spec fn list_marker(ordered: bool) -> char {
    if ordered {
        '+'
    } else {
        '-'
    }
}

/// The markup of one list item at the given indentation: the item's line,
/// then its nested list one unit deeper.
pub open spec fn item_markup(item: ListItemModel, ordered: bool, indent: Seq<char>) -> Seq<char>
    decreases item, 0int,
{
    indent + seq![list_marker(ordered), ' '] + spans_markup(item.content) + seq!['\n'] + match item.nested {
        Some(nested) => list_markup(nested, indent + INDENT_UNIT@),
        None => Seq::empty(),
    }
}

/// The markup of the items of a list, in order.
pub open spec fn items_markup(items: Seq<ListItemModel>, ordered: bool, indent: Seq<char>) -> Seq<
    char,
>
    decreases items, 1int,
{
    if items.len() == 0 {
        Seq::empty()
    } else {
        items_markup(items.drop_last(), ordered, indent) + item_markup(
            items.last(),
            ordered,
            indent,
        )
    }
}

/// The markup of a list at the given indentation.
pub open spec fn list_markup(list: ListModel, indent: Seq<char>) -> Seq<char>
    decreases list, 2int,
{
    items_markup(list.items, list.ordered, indent)
}

/// The number of items under one item, itself included.
pub open spec fn item_count(item: ListItemModel) -> nat
    decreases item, 0int,
{
    1 + match item.nested {
        Some(nested) => list_item_count(nested),
        None => 0,
    }
}

/// The number of items of a sequence of items, nested ones included.
pub open spec fn items_count(items: Seq<ListItemModel>) -> nat
    decreases items, 1int,
{
    if items.len() == 0 {
        0
    } else {
        items_count(items.drop_last()) + item_count(items.last())
    }
}

/// The number of items of a list, nested ones included, at whatever depth.
pub open spec fn list_item_count(list: ListModel) -> nat
    decreases list, 2int,
{
    items_count(list.items)
}

/// The markup of a run of table cells, each between `open` and `close`.
pub open spec fn cells_markup(cells: Seq<Seq<SpanModel>>, open: Seq<char>, close: Seq<char>) -> Seq<
    char,
>
    decreases cells.len(),
{
    if cells.len() == 0 {
        Seq::empty()
    } else {
        cells_markup(cells.drop_last(), open, close) + open + spans_markup(cells.last()) + close
    }
}

/// The markup of the body rows of a table: the cells of each row, in order.
pub open spec fn rows_markup(rows: Seq<Seq<Seq<SpanModel>>>) -> Seq<char>
    decreases rows.len(),
{
    if rows.len() == 0 {
        Seq::empty()
    } else {
        rows_markup(rows.drop_last()) + cells_markup(
            rows.last(),
            BODY_CELL_OPEN@,
            BODY_CELL_CLOSE@,
        )
    }
}

/// The markup of a table: a grid with as many columns as there are headers,
/// the header cells in bold, then the body cells row by row. A table
/// without headers has no markup.
pub open spec fn table_markup(
    headers: Seq<Seq<SpanModel>>,
    rows: Seq<Seq<Seq<SpanModel>>>,
) -> Seq<char> {
    if headers.len() == 0 {
        Seq::empty()
    } else {
        TABLE_OPEN@ + TABLE_COLUMNS@ + decimal(headers.len()) + TABLE_ARGUMENT_END@ + cells_markup(
            headers,
            HEADER_CELL_OPEN@,
            HEADER_CELL_CLOSE@,
        ) + rows_markup(rows) + TABLE_CLOSE@
    }
}

/// The number of items of a list, nested ones included, up to `usize::MAX`.
pub fn count_list_items(list: &List) -> (count: usize)
    ensures
        count == cap(list_item_count(list@) as int),
    decreases list,
{
    let ghost model = items_model(list.items@);
    let mut count: usize = 0;
    let mut i: usize = 0;
    assert(model.take(0) == Seq::<ListItemModel>::empty());
    while i < list.items.len()
        invariant
            i <= list.items.len(),
            model == items_model(list.items@),
            count == cap(items_count(model.take(i as int)) as int),
        decreases list.items.len() - i,
    {
        assert(model.take(i + 1).drop_last() == model.take(i as int));
        assert(model.take(i + 1).last() == list.items[i as int]@);
        let ghost before = items_count(model.take(i as int)) as int;
        let inner = match &list.items[i].nested {
            Some(nested) => count_list_items(nested),
            None => 0,
        };
        let ghost inner_exact = item_count(list.items[i as int]@) as int - 1;
        assert(inner == cap(inner_exact));
        proof {
            lemma_cap_sum(before, 1);
            lemma_cap_sum(before + 1, inner_exact);
        }
        count = saturating_sum(saturating_sum(count, 1), inner);
        i += 1;
    }
    assert(model.take(i as int) == model);
    count
}

/// Appends the markup of a list whose items are indented by `indent`.
pub fn list_to_typst(list: &List, indent: &str, out: &mut String)
    ensures
        final(out)@ == old(out)@ + list_markup(list@, indent@),
    decreases list,
{
    let ghost model = items_model(list.items@);
    let marker = if list.ordered {
        '+'
    } else {
        '-'
    };
    let mut i: usize = 0;
    assert(model.take(0) == Seq::<ListItemModel>::empty());
    while i < list.items.len()
        invariant
            i <= list.items.len(),
            model == items_model(list.items@),
            marker == list_marker(list.ordered),
            out@ == old(out)@ + items_markup(model.take(i as int), list.ordered, indent@),
        decreases list.items.len() - i,
    {
        assert(model.take(i + 1).drop_last() == model.take(i as int));
        assert(model.take(i + 1).last() == list.items[i as int]@);
        let ghost before = out@;
        let item = &list.items[i];
        out.append(indent);
        out.push(marker);
        out.push(' ');
        spans_to_typst(&item.content, out);
        out.push('\n');
        match &item.nested {
            Some(nested) => {
                let mut deeper = String::from_str(indent);
                deeper.append(INDENT_UNIT);
                list_to_typst(nested, deeper.as_str(), out);
            },
            None => {},
        }
        assert(out@ == before + item_markup(item@, list.ordered, indent@));
        i += 1;
    }
    assert(model.take(i as int) == model);
}

/// Appends the markup of a run of table cells, each between `open` and
/// `close`.
pub fn push_cells(cells: &Vec<Vec<Span>>, open: &str, close: &str, out: &mut String)
    ensures
        final(out)@ == old(out)@ + cells_markup(cells_model(cells@), open@, close@),
{
    let ghost model = cells_model(cells@);
    let mut i: usize = 0;
    assert(model.take(0) == Seq::<Seq<SpanModel>>::empty());
    while i < cells.len()
        invariant
            i <= cells.len(),
            model == cells_model(cells@),
            out@ == old(out)@ + cells_markup(model.take(i as int), open@, close@),
        decreases cells.len() - i,
    {
        assert(model.take(i + 1).drop_last() == model.take(i as int));
        assert(model.take(i + 1).last() == spans_model(cells[i as int]@));
        out.append(open);
        spans_to_typst(&cells[i], out);
        out.append(close);
        i += 1;
    }
    assert(model.take(i as int) == model);
}

/// Appends the markup of a table.
pub fn table_to_typst(headers: &Vec<Vec<Span>>, rows: &Vec<Vec<Vec<Span>>>, out: &mut String)
    ensures
        final(out)@ == old(out)@ + table_markup(cells_model(headers@), rows_model(rows@)),
{
    let col_count = headers.len();
    if col_count == 0 {
        return ;
    }
    out.append(TABLE_OPEN);
    out.append(TABLE_COLUMNS);
    push_decimal(out, col_count);
    out.append(TABLE_ARGUMENT_END);
    push_cells(headers, HEADER_CELL_OPEN, HEADER_CELL_CLOSE, out);
    let ghost model = rows_model(rows@);
    let ghost before = out@;
    let mut i: usize = 0;
    assert(model.take(0) == Seq::<Seq<Seq<SpanModel>>>::empty());
    while i < rows.len()
        invariant
            i <= rows.len(),
            model == rows_model(rows@),
            out@ == before + rows_markup(model.take(i as int)),
        decreases rows.len() - i,
    {
        assert(model.take(i + 1).drop_last() == model.take(i as int));
        assert(model.take(i + 1).last() == cells_model(rows[i as int]@));
        push_cells(&rows[i], BODY_CELL_OPEN, BODY_CELL_CLOSE, out);
        i += 1;
    }
    assert(model.take(i as int) == model);
    out.append(TABLE_CLOSE);
}

} // verus!

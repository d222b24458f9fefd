//! Pagination heuristics: the estimated length of a section, and the
//! decision whether a page break goes before a heading.
//!
//! A heading whose section is long forces a break before it and leaves an
//! obligation behind: one more break is owed once the cursor reaches the next
//! heading of its level or above. The obligation is the only state that the
//! emitter carries from one block to the next.

use crate::block::{blocks_model, spans_model, Block, BlockModel, List, Span, SpanModel};
use crate::config::{Config, ConfigModel};
use crate::markup::{count_list_items, list_item_count};
use crate::text::{cap, count_lines, lemma_cap_sum, line_count, saturating_sum};
use vstd::prelude::*;
use vstd::string::*;

verus! {

/// The number of characters that one line is taken to hold.
pub const CHARS_PER_LINE: usize = 80;

/// The lines that a heading inside a section is counted as.
pub const NESTED_HEADING_LINES: usize = 2;

/// The number of characters of one span; a line break counts as one.
pub open spec fn char_count(span: SpanModel) -> nat
    decreases span, 0int,
{
    match span {
        SpanModel::Text(text) => text.len(),
        SpanModel::Bold(inner) => chars_count(inner),
        SpanModel::Italic(inner) => chars_count(inner),
        SpanModel::Code(text) => text.len(),
        SpanModel::Link { url, content } => chars_count(content),
        SpanModel::LineBreak => 1,
    }
}

/// The number of characters of a sequence of spans.
pub open spec fn chars_count(spans: Seq<SpanModel>) -> nat
    decreases spans, 1int,
{
    if spans.len() == 0 {
        0
    } else {
        chars_count(spans.drop_last()) + char_count(spans.last())
    }
}

/// The lines that a paragraph is estimated at: one per eighty characters,
/// and at least one. The character count is taken up to `usize::MAX`.
pub open spec fn paragraph_lines(content: Seq<SpanModel>) -> nat {
    let full = cap(chars_count(content) as int) / (CHARS_PER_LINE as int);
    if full < 1 {
        1
    } else {
        full as nat
    }
}

/// The lines that one block inside a section is estimated at.
pub open spec fn block_lines(block: BlockModel) -> nat {
    match block {
        BlockModel::Heading { .. } => NESTED_HEADING_LINES as nat,
        BlockModel::Paragraph { content } => paragraph_lines(content),
        BlockModel::CodeBlock { content, .. } => line_count(content),
        BlockModel::List(list) => list_item_count(list),
        BlockModel::Table { headers, rows } => 1 + headers.len() + rows.len(),
        BlockModel::Rule => 1,
        BlockModel::PageBreak => 0,
    }
}

/// Whether `block` ends a section opened by a heading of the given level: a
/// heading of that level or above does.
pub open spec fn ends_section(block: BlockModel, level: u8) -> bool {
    block matches BlockModel::Heading { level: other, .. } && other <= level
}

/// The estimated lines of the blocks from index `from` up to the block that
/// ends the section, or to the end of the document.
pub open spec fn lines_to_section_end(blocks: Seq<BlockModel>, from: int, level: u8) -> nat
    decreases blocks.len() - from,
{
    if from < 0 || from >= blocks.len() || ends_section(blocks[from], level) {
        0
    } else {
        block_lines(blocks[from]) + lines_to_section_end(blocks, from + 1, level)
    }
}

/// The estimated length in lines of the section that the heading at index
/// `start` opens; zero where the block there is no heading.
pub open spec fn section_lines(blocks: Seq<BlockModel>, start: int) -> nat {
    match blocks[start] {
        BlockModel::Heading { level, .. } => lines_to_section_end(blocks, start + 1, level),
        _ => 0,
    }
}

/// Whether a heading forces a page break before it: its level has a
/// threshold and its section is at least that long.
pub open spec fn forces_break(config: ConfigModel, level: u8, lines: nat) -> bool {
    config.layout.break_if_lines(level) matches Some(threshold) && lines >= threshold
}

/// Whether a heading discharges the pending obligation: one is pending, and
/// the heading is of its level or above.
pub open spec fn discharges(pending: Option<u8>, level: u8) -> bool {
    pending matches Some(owed) && level <= owed
}

/// Whether a page break goes before a heading that the cursor reaches.
pub open spec fn breaks_before(
    config: ConfigModel,
    level: u8,
    lines: nat,
    pending: Option<u8>,
) -> bool {
    forces_break(config, level, lines) || discharges(pending, level)
}

/// The obligation that is pending after the cursor has passed a heading.
pub open spec fn pending_after(
    config: ConfigModel,
    level: u8,
    lines: nat,
    pending: Option<u8>,
) -> Option<u8> {
    if forces_break(config, level, lines) {
        Some(level)
    } else if discharges(pending, level) {
        None
    } else {
        pending
    }
}

/// A heading that the cursor reaches: its level and the length of its
/// section.
pub struct Visit {
    pub level: u8,
    pub lines: nat,
}

/// The obligation that is pending after the cursor has passed the given
/// headings, in order.
pub open spec fn pending_through(config: ConfigModel, pending: Option<u8>, visits: Seq<Visit>) -> Option<
    u8,
>
    decreases visits.len(),
{
    if visits.len() == 0 {
        pending
    } else {
        let before = pending_through(config, pending, visits.drop_last());
        pending_after(config, visits.last().level, visits.last().lines, before)
    }
}

/// The number of page breaks that go before the given headings as the cursor
/// passes them, in order.
pub open spec fn breaks_through(config: ConfigModel, pending: Option<u8>, visits: Seq<Visit>) -> nat
    decreases visits.len(),
{
    if visits.len() == 0 {
        0
    } else {
        let before = pending_through(config, pending, visits.drop_last());
        breaks_through(config, pending, visits.drop_last()) + if breaks_before(
            config,
            visits.last().level,
            visits.last().lines,
            before,
        ) {
            1nat
        } else {
            0nat
        }
    }
}

/// A heading whose section reaches the threshold of its level gets a break
/// before it and leaves an obligation of its level, whatever was pending.
pub proof fn lemma_forced_break(config: ConfigModel, level: u8, lines: nat, pending: Option<u8>)
    requires
        config.layout.break_if_lines(level) matches Some(threshold) && lines >= threshold,
    ensures
        breaks_before(config, level, lines, pending),
        pending_after(config, level, lines, pending) == Some(level),
{
}

/// A heading of the owed level or above that forces no break of its own
/// gets the owed break, and nothing is pending after it.
pub proof fn lemma_obligation_discharged(config: ConfigModel, level: u8, lines: nat, owed: u8)
    requires
        !forces_break(config, level, lines),
        level <= owed,
    ensures
        breaks_before(config, level, lines, Some(owed)),
        pending_after(config, level, lines, Some(owed)).is_none(),
{
}

/// A heading below the owed level that forces no break of its own gets no
/// break and leaves the obligation as it is.
pub proof fn lemma_obligation_kept(config: ConfigModel, level: u8, lines: nat, owed: u8)
    requires
        !forces_break(config, level, lines),
        level > owed,
    ensures
        !breaks_before(config, level, lines, Some(owed)),
        pending_after(config, level, lines, Some(owed)) == Some(owed),
{
}

/// With nothing pending, a heading that forces no break gets none and leaves
/// nothing pending.
pub proof fn lemma_nothing_pending(config: ConfigModel, level: u8, lines: nat)
    requires
        !forces_break(config, level, lines),
    ensures
        !breaks_before(config, level, lines, None),
        pending_after(config, level, lines, None).is_none(),
{
}

/// An obligation survives any run of deeper headings that force no break,
/// and no break goes before any of them.
pub proof fn lemma_obligation_survives(config: ConfigModel, owed: u8, visits: Seq<Visit>)
    requires
        forall|i: int|
            0 <= i < visits.len() ==> (#[trigger] visits[i]).level > owed && !forces_break(
                config,
                visits[i].level,
                visits[i].lines,
            ),
    ensures
        pending_through(config, Some(owed), visits) == Some(owed),
        breaks_through(config, Some(owed), visits) == 0,
    decreases visits.len(),
{
    if visits.len() > 0 {
        let earlier = visits.drop_last();
        assert forall|i: int| 0 <= i < earlier.len() implies (#[trigger] earlier[i]).level > owed
            && !forces_break(config, earlier[i].level, earlier[i].lines) by {
            assert(earlier[i] == visits[i]);
        }
        lemma_obligation_survives(config, owed, earlier);
        assert(visits.last() == visits[visits.len() - 1]);
    }
}

/// After a forced break, the owed break comes exactly once: none goes before
/// the deeper headings that follow, one goes before the next heading of the
/// owed level or above, and nothing is pending after it.
pub proof fn lemma_owed_break_once(
    config: ConfigModel,
    opening: Visit,
    deeper: Seq<Visit>,
    closing: Visit,
    pending: Option<u8>,
)
    requires
        forces_break(config, opening.level, opening.lines),
        forall|i: int|
            0 <= i < deeper.len() ==> (#[trigger] deeper[i]).level > opening.level
                && !forces_break(config, deeper[i].level, deeper[i].lines),
        closing.level <= opening.level,
        !forces_break(config, closing.level, closing.lines),
    ensures
        breaks_through(config, pending, seq![opening] + deeper + seq![closing]) == 2,
        breaks_through(config, pending, seq![opening] + deeper) == 1,
        pending_through(config, pending, seq![opening] + deeper + seq![closing]).is_none(),
{
    let owed = opening.level;
    lemma_visits_split(config, pending, seq![opening], deeper);
    lemma_visits_split(config, pending, seq![opening] + deeper, seq![closing]);
    assert(seq![opening].drop_last() == Seq::<Visit>::empty());
    assert(pending_through(config, pending, seq![opening]) == Some(owed)) by {
        reveal_with_fuel(pending_through, 2);
    }
    assert(breaks_through(config, pending, seq![opening]) == 1) by {
        reveal_with_fuel(breaks_through, 2);
        reveal_with_fuel(pending_through, 2);
    }
    lemma_obligation_survives(config, owed, deeper);
    assert(seq![closing].drop_last() == Seq::<Visit>::empty());
    assert(pending_through(config, Some(owed), seq![closing]).is_none()) by {
        reveal_with_fuel(pending_through, 2);
    }
    assert(breaks_through(config, Some(owed), seq![closing]) == 1) by {
        reveal_with_fuel(breaks_through, 2);
        reveal_with_fuel(pending_through, 2);
    }
}

/// Passing two runs of headings one after the other is passing the second
/// with what the first left pending.
pub proof fn lemma_visits_split(
    config: ConfigModel,
    pending: Option<u8>,
    first: Seq<Visit>,
    second: Seq<Visit>,
)
    ensures
        pending_through(config, pending, first + second) == pending_through(
            config,
            pending_through(config, pending, first),
            second,
        ),
        breaks_through(config, pending, first + second) == breaks_through(config, pending, first)
            + breaks_through(config, pending_through(config, pending, first), second),
    decreases second.len(),
{
    if second.len() == 0 {
        assert(first + second == first);
    } else {
        lemma_visits_split(config, pending, first, second.drop_last());
        assert((first + second).drop_last() == first + second.drop_last());
    }
}

/// The number of characters of one span, up to `usize::MAX`.
pub fn span_char_count(span: &Span) -> (count: usize)
    ensures
        count == cap(char_count(span@) as int),
    decreases span, 0int,
{
    match span {
        Span::Text(text) => text.as_str().unicode_len(),
        Span::Bold(inner) => spans_char_count(inner),
        Span::Italic(inner) => spans_char_count(inner),
        Span::Code(text) => text.as_str().unicode_len(),
        Span::Link { url, content } => spans_char_count(content),
        Span::LineBreak => 1,
    }
}

/// The number of characters of a sequence of spans, up to `usize::MAX`.
pub fn spans_char_count(spans: &Vec<Span>) -> (count: usize)
    ensures
        count == cap(chars_count(spans_model(spans@)) as int),
    decreases spans, 1int,
{
    let ghost model = spans_model(spans@);
    let mut count: usize = 0;
    let mut i: usize = 0;
    assert(model.take(0) == Seq::<SpanModel>::empty());
    while i < spans.len()
        invariant
            i <= spans.len(),
            model == spans_model(spans@),
            count == cap(chars_count(model.take(i as int)) as int),
        decreases spans.len() - i,
    {
        assert(model.take(i + 1).drop_last() == model.take(i as int));
        assert(model.take(i + 1).last() == spans[i as int]@);
        let one = span_char_count(&spans[i]);
        proof {
            lemma_cap_sum(
                chars_count(model.take(i as int)) as int,
                char_count(spans[i as int]@) as int,
            );
        }
        count = saturating_sum(count, one);
        i += 1;
    }
    assert(model.take(i as int) == model);
    count
}

/// The number of lines that a list is estimated at: one per item, nested
/// items included, up to `usize::MAX`.
pub fn count_list_lines(list: &List) -> (lines: usize)
    ensures
        lines == cap(list_item_count(list@) as int),
{
    count_list_items(list)
}

/// The lines that one block inside a section is estimated at, up to
/// `usize::MAX`.
pub fn estimate_block_lines(block: &Block) -> (lines: usize)
    ensures
        lines == cap(block_lines(block@) as int),
{
    match block {
        Block::Heading { .. } => NESTED_HEADING_LINES,
        Block::Paragraph { content } => {
            let full = spans_char_count(content) / CHARS_PER_LINE;
            if full < 1 {
                1
            } else {
                full
            }
        },
        Block::CodeBlock { content, .. } => count_lines(content.as_str()),
        Block::List(list) => count_list_lines(list),
        Block::Table { headers, rows } => {
            proof {
                lemma_cap_sum((1 + headers@.len()) as int, rows@.len() as int);
            }
            saturating_sum(saturating_sum(1, headers.len()), rows.len())
        },
        Block::Rule => 1,
        Block::PageBreak => 0,
    }
}

/// The approximate number of lines in the section that the heading at
/// `start` opens: everything after it up to the next heading of its level or
/// above. The count stops at `usize::MAX`.
pub fn count_section_lines(blocks: &Vec<Block>, start: usize) -> (lines: usize)
    requires
        start < blocks@.len(),
    ensures
        lines == cap(section_lines(blocks_model(blocks@), start as int) as int),
{
    let ghost model = blocks_model(blocks@);
    let start_level = match &blocks[start] {
        Block::Heading { level, .. } => *level,
        _ => {
            return 0;
        },
    };
    let n = blocks.len();
    let mut lines: usize = 0;
    let ghost mut exact: int = 0;
    let mut i: usize = start + 1;
    let mut open = true;
    while open && i < n
        invariant
            start < i <= n,
            n == blocks@.len(),
            model == blocks_model(blocks@),
            0 <= exact,
            lines == cap(exact),
            !open ==> lines_to_section_end(model, i as int, start_level) == 0,
            exact + lines_to_section_end(model, i as int, start_level) == lines_to_section_end(
                model,
                start + 1,
                start_level,
            ),
        decreases n - i + if open { 1int } else { 0int },
    {
        assert(model[i as int] == blocks[i as int]@);
        let ends = match &blocks[i] {
            Block::Heading { level, .. } => *level <= start_level,
            _ => false,
        };
        if ends {
            open = false;
        } else {
            let one = estimate_block_lines(&blocks[i]);
            proof {
                lemma_cap_sum(exact, block_lines(model[i as int]) as int);
                exact = exact + block_lines(model[i as int]);
            }
            lines = saturating_sum(lines, one);
            i += 1;
        }
    }
    lines
}

/// Whether a heading of the given level with a section of the given length
/// forces a page break before it.
pub fn break_forced(config: &Config, level: u8, lines: usize) -> (forced: bool)
    ensures
        forced == forces_break(config@, level, lines as nat),
{
    match config.layout.break_if_lines_for_heading(level) {
        Some(threshold) => lines >= threshold,
        None => false,
    }
}

} // verus!

//! The layout-aware emitter: from a document and a configuration to Typst
//! markup.
//!
//! The markup opens with a preamble. The blocks follow, read by a cursor:
//! a heading is grouped with the block after it so that the two stay on one
//! page, and may get a page break or a space reservation in front; any other
//! block is emitted as it is.

use crate::block::{blocks_model, Block, BlockModel, ListModel, SpanModel};
use crate::config::{Config, ConfigModel};
use crate::layout::{
    break_forced, breaks_before, count_section_lines, lemma_visits_split, pending_after,
    pending_through, section_lines, Visit,
};
use crate::markup::{
    cells_markup, count_list_items, heading_markup, list_item_count, list_markup, list_to_typst,
    push_heading, rows_markup, spans_markup, spans_to_typst, table_markup, table_to_typst,
    BLOCK_CLOSE, BLOCK_OPEN, HEADER_CELL_CLOSE, HEADER_CELL_OPEN, TABLE_ARGUMENT_END,
    TABLE_CLOSE, TABLE_COLUMNS, TABLE_OPEN,
};
use crate::text::{chars_of, decimal, ends_with, has_suffix};
use vstd::prelude::*;
use vstd::string::*;

verus! {

/// Sets paragraphs to optimised line breaking.
pub const PARAGRAPH_SETUP: &'static str = "#set par(linebreaks: \"optimized\")\n";

/// Selects the sans-serif font.
pub const SANS_FONT_SETUP: &'static str = "#set text(font: \"Open Sans\")\n";

/// Switches page numbers on.
pub const PAGE_NUMBER_SETUP: &'static str = "#set page(numbering: \"1\")\n";

/// Opens the rule that draws links underlined and in a colour.
pub const UNDERLINED_LINK_OPEN: &'static str = "#show link: it => underline(text(fill: rgb(\"";

/// Closes the rule opened with [`UNDERLINED_LINK_OPEN`].
pub const UNDERLINED_LINK_CLOSE: &'static str = "\"), it))\n";

/// Opens the rule that draws links in a colour.
pub const PLAIN_LINK_OPEN: &'static str = "#show link: it => text(fill: rgb(\"";

/// Closes the rule opened with [`PLAIN_LINK_OPEN`].
pub const PLAIN_LINK_CLOSE: &'static str = "\"), it)\n";

/// A page break that the typesetter skips on an empty page.
pub const WEAK_PAGE_BREAK: &'static str = "#pagebreak(weak: true)\n";

/// An unconditional page break.
pub const PAGE_BREAK: &'static str = "#pagebreak()\n\n";

/// A horizontal rule over the full width.
pub const RULE: &'static str = "#line(length: 100%)\n\n";

/// Opens a space reservation: an empty unbreakable block of a given height.
pub const RESERVE_OPEN: &'static str = "#block(breakable: false, height: ";

/// Stands between the block of a reservation and the step back over it.
pub const RESERVE_MIDDLE: &'static str = ")\n#v(-";

/// Closes a space reservation.
pub const RESERVE_CLOSE: &'static str = ", weak: true)\n";

/// Opens a code block inside an unbreakable group.
pub const CODE_OPEN: &'static str = "#block(breakable: false)[\n```";

/// Closes a code block and its group.
pub const CODE_CLOSE: &'static str = "```\n]\n\n";

/// A line end.
pub const NEWLINE: &'static str = "\n";

/// A list of at most this many items, nested ones included, is kept on one
/// page.
pub const KEEP_TOGETHER_LIMIT: usize = 5;

/// The preamble: paragraph setup, then the font and page-number directives
/// where they are switched on, then the link rule, then an empty line.
pub open spec fn preamble(config: ConfigModel) -> Seq<char> {
    PARAGRAPH_SETUP@ + (if config.font_sans {
        SANS_FONT_SETUP@
    } else {
        Seq::empty()
    }) + (if config.page_numbers {
        PAGE_NUMBER_SETUP@
    } else {
        Seq::empty()
    }) + (if config.link_underline {
        UNDERLINED_LINK_OPEN@ + config.link_color + UNDERLINED_LINK_CLOSE@
    } else {
        PLAIN_LINK_OPEN@ + config.link_color + PLAIN_LINK_CLOSE@
    }) + seq!['\n']
}

/// `out` without a horizontal rule at its very end.
pub open spec fn strip_rule(out: Seq<char>) -> Seq<char> {
    if has_suffix(out, RULE@) {
        out.take(out.len() - RULE@.len())
    } else {
        out
    }
}

/// The markup of a code block: the content as it is between fences, with the
/// language after the opening fence and a newline after content that does
/// not end in one.
pub open spec fn code_block_markup(language: Option<Seq<char>>, content: Seq<char>) -> Seq<char> {
    CODE_OPEN@ + (match language {
        Some(name) => name,
        None => Seq::empty(),
    }) + seq!['\n'] + content + (if has_suffix(content, NEWLINE@) {
        Seq::empty()
    } else {
        seq!['\n']
    }) + CODE_CLOSE@
}

/// The markup of a list as a block: kept on one page up to the limit, left
/// breakable above it.
pub open spec fn list_block_markup(list: ListModel) -> Seq<char> {
    if list_item_count(list) <= KEEP_TOGETHER_LIMIT {
        BLOCK_OPEN@ + list_markup(list, Seq::empty()) + BLOCK_CLOSE@
    } else {
        list_markup(list, Seq::empty()) + seq!['\n']
    }
}

/// The markup of one block.
pub open spec fn block_markup(block: BlockModel) -> Seq<char> {
    match block {
        BlockModel::Heading { level, content } => heading_markup(level, content),
        BlockModel::Paragraph { content } => spans_markup(content) + seq!['\n', '\n'],
        BlockModel::CodeBlock { language, content } => code_block_markup(language, content),
        BlockModel::List(list) => list_block_markup(list),
        BlockModel::Table { headers, rows } => BLOCK_OPEN@ + table_markup(headers, rows)
            + BLOCK_CLOSE@,
        BlockModel::Rule => RULE@,
        BlockModel::PageBreak => PAGE_BREAK@,
    }
}

/// The output after one block is emitted: its markup is added at the end; a
/// page break first removes a rule that stands right before it.
pub open spec fn after_block(out: Seq<char>, block: BlockModel) -> Seq<char> {
    match block {
        BlockModel::PageBreak => strip_rule(out) + PAGE_BREAK@,
        _ => out + block_markup(block),
    }
}

/// A space reservation: an empty unbreakable block of the given height and
/// a step back over it.
pub open spec fn reservation(space: Seq<char>) -> Seq<char> {
    RESERVE_OPEN@ + space + RESERVE_MIDDLE@ + space + RESERVE_CLOSE@
}

/// The output after what goes before a heading: a page break in place of a
/// rule that stands there, where a break is due; else the space reservation
/// of the heading's level, where one is configured; else nothing.
pub open spec fn after_lead(
    out: Seq<char>,
    config: ConfigModel,
    level: u8,
    lines: nat,
    pending: Option<u8>,
) -> Seq<char> {
    if breaks_before(config, level, lines, pending) {
        strip_rule(out) + WEAK_PAGE_BREAK@
    } else {
        match config.layout.min_space(level) {
            Some(space) => out + reservation(space),
            None => out,
        }
    }
}

/// What the emitter holds between two blocks: the output so far and the
/// obligation that is pending.
#[verifier::ext_equal]
pub struct EmitState {
    pub out: Seq<char>,
    pub pending: Option<u8>,
}

/// The number of blocks that the cursor takes at index `at`: a heading takes
/// the block after it along.
pub open spec fn step_width(blocks: Seq<BlockModel>, at: int) -> int {
    if blocks[at] is Heading && at + 1 < blocks.len() {
        2
    } else {
        1
    }
}

/// The state after the cursor has taken the block at index `at`. A heading
/// gets its lead, then opens a group that holds the heading and the block
/// after it; any other block is emitted alone.
pub open spec fn emit_step(
    blocks: Seq<BlockModel>,
    at: int,
    config: ConfigModel,
    state: EmitState,
) -> EmitState {
    match blocks[at] {
        BlockModel::Heading { level, content } => {
            let lines = section_lines(blocks, at);
            let lead = after_lead(state.out, config, level, lines, state.pending);
            let heading = lead + BLOCK_OPEN@ + heading_markup(level, content);
            let group = if at + 1 < blocks.len() {
                after_block(heading, blocks[at + 1])
            } else {
                heading
            };
            EmitState {
                out: group + BLOCK_CLOSE@,
                pending: pending_after(config, level, lines, state.pending),
            }
        },
        block => EmitState { out: after_block(state.out, block), pending: state.pending },
    }
}

/// The state after the cursor has gone from index `at` to the end.
pub open spec fn emit_from(
    blocks: Seq<BlockModel>,
    at: int,
    config: ConfigModel,
    state: EmitState,
) -> EmitState
    decreases blocks.len() - at,
{
    if at < 0 || at >= blocks.len() {
        state
    } else {
        emit_from(blocks, at + step_width(blocks, at), config, emit_step(blocks, at, config, state))
    }
}

/// The markup of a document under a configuration.
pub open spec fn emit_document(blocks: Seq<BlockModel>, config: ConfigModel) -> Seq<char> {
    emit_from(blocks, 0, config, EmitState { out: preamble(config), pending: None }).out
}

/// A document of one heading is the preamble, the heading's lead, and the
/// heading alone in its group: as many `=` as the level says, a space, the
/// escaped content, the label, a blank line. With no threshold and no
/// reservation configured for the level there is no lead.
pub proof fn lemma_single_heading(level: u8, content: Seq<SpanModel>, config: ConfigModel)
    requires
        1 <= level <= 6,
    ensures
        emit_document(seq![BlockModel::Heading { level, content }], config) == after_lead(
            preamble(config),
            config,
            level,
            0,
            None,
        ) + BLOCK_OPEN@ + heading_markup(level, content) + BLOCK_CLOSE@,
        config.layout.break_if_lines(level).is_none() && config.layout.min_space(level).is_none()
            ==> emit_document(seq![BlockModel::Heading { level, content }], config) == preamble(
            config,
        ) + BLOCK_OPEN@ + heading_markup(level, content) + BLOCK_CLOSE@,
{
    let blocks = seq![BlockModel::Heading { level, content }];
    let start = EmitState { out: preamble(config), pending: None };
    reveal_with_fuel(emit_from, 2);
    reveal_with_fuel(crate::layout::lines_to_section_end, 2);
    assert(section_lines(blocks, 0) == 0);
    assert(emit_from(blocks, 1, config, emit_step(blocks, 0, config, start)) == emit_step(
        blocks,
        0,
        config,
        start,
    ));
}

/// A heading that the cursor reaches with a block after it shares its group
/// with that block: the group opens, the heading follows, then the block,
/// and only then the group closes. The cursor goes on behind the block.
pub proof fn lemma_heading_keeps_follower(
    blocks: Seq<BlockModel>,
    at: int,
    config: ConfigModel,
    state: EmitState,
)
    requires
        0 <= at,
        at + 1 < blocks.len(),
        blocks[at] is Heading,
    ensures
        step_width(blocks, at) == 2,
        ({
            let lead = after_lead(
                state.out,
                config,
                blocks[at]->Heading_level,
                section_lines(blocks, at),
                state.pending,
            );
            let heading = heading_markup(blocks[at]->Heading_level, blocks[at]->Heading_content);
            &&& emit_step(blocks, at, config, state).out == after_block(
                lead + BLOCK_OPEN@ + heading,
                blocks[at + 1],
            ) + BLOCK_CLOSE@
            &&& blocks[at + 1] matches BlockModel::Paragraph { content } ==> emit_step(
                blocks,
                at,
                config,
                state,
            ).out == lead + BLOCK_OPEN@ + heading + spans_markup(content) + seq!['\n', '\n']
                + BLOCK_CLOSE@
        }),
{
    let lead = after_lead(
        state.out,
        config,
        blocks[at]->Heading_level,
        section_lines(blocks, at),
        state.pending,
    );
    let heading = heading_markup(blocks[at]->Heading_level, blocks[at]->Heading_content);
    match blocks[at + 1] {
        BlockModel::Paragraph { content } => {
            assert((lead + BLOCK_OPEN@ + heading) + (spans_markup(content) + seq!['\n', '\n'])
                == lead + BLOCK_OPEN@ + heading + spans_markup(content) + seq!['\n', '\n']);
        },
        _ => {},
    }
}

/// A list of up to five items, nested ones included, is emitted inside an
/// unbreakable group; a list of six or more is emitted without one.
pub proof fn lemma_list_wrapping(list: ListModel)
    ensures
        list_item_count(list) <= 5 ==> block_markup(BlockModel::List(list)) == BLOCK_OPEN@
            + list_markup(list, Seq::empty()) + BLOCK_CLOSE@,
        list_item_count(list) >= 6 ==> block_markup(BlockModel::List(list)) == list_markup(
            list,
            Seq::empty(),
        ) + seq!['\n'],
{
}

/// A table is always emitted inside an unbreakable group. With at least one
/// header it is a grid with as many columns as headers, the header cells in
/// bold first, the body cells after them, row by row.
pub proof fn lemma_table_group(headers: Seq<Seq<SpanModel>>, rows: Seq<Seq<Seq<SpanModel>>>)
    ensures
        block_markup(BlockModel::Table { headers, rows }) == BLOCK_OPEN@ + table_markup(
            headers,
            rows,
        ) + BLOCK_CLOSE@,
        headers.len() > 0 ==> table_markup(headers, rows) == TABLE_OPEN@ + TABLE_COLUMNS@
            + decimal(headers.len()) + TABLE_ARGUMENT_END@ + cells_markup(
            headers,
            HEADER_CELL_OPEN@,
            HEADER_CELL_CLOSE@,
        ) + rows_markup(rows) + TABLE_CLOSE@,
{
}

/// A rule directly followed by a page break leaves no trace: the output is
/// what it was before the rule, and the unconditional break.
pub proof fn lemma_page_break_replaces_rule(out: Seq<char>)
    ensures
        after_block(after_block(out, BlockModel::Rule), BlockModel::PageBreak) == out + PAGE_BREAK@,
{
    let with_rule = out + RULE@;
    assert(with_rule.skip(with_rule.len() - RULE@.len()) == RULE@);
    assert(with_rule.take(with_rule.len() - RULE@.len()) == out);
}

/// A page break always ends the output with the unconditional break
/// directive.
pub proof fn lemma_page_break_emitted(out: Seq<char>)
    ensures
        has_suffix(after_block(out, BlockModel::PageBreak), PAGE_BREAK@),
{
    let result = strip_rule(out) + PAGE_BREAK@;
    assert(result.skip(result.len() - PAGE_BREAK@.len()) == PAGE_BREAK@);
}

/// A rule that stands right before a heading with a break due is replaced
/// by the break.
pub proof fn lemma_break_replaces_rule(
    out: Seq<char>,
    config: ConfigModel,
    level: u8,
    lines: nat,
    pending: Option<u8>,
)
    requires
        breaks_before(config, level, lines, pending),
    ensures
        after_lead(out + RULE@, config, level, lines, pending) == out + WEAK_PAGE_BREAK@,
{
    let with_rule = out + RULE@;
    assert(with_rule.skip(with_rule.len() - RULE@.len()) == RULE@);
    assert(with_rule.take(with_rule.len() - RULE@.len()) == out);
}

/// The obligation changes only at headings that the cursor reaches, and
/// there as the break decision says; any other block leaves it as it is.
pub proof fn lemma_step_obligation(
    blocks: Seq<BlockModel>,
    at: int,
    config: ConfigModel,
    state: EmitState,
)
    requires
        0 <= at < blocks.len(),
    ensures
        blocks[at] matches BlockModel::Heading { level, .. } ==> emit_step(
            blocks,
            at,
            config,
            state,
        ).pending == pending_after(config, level, section_lines(blocks, at), state.pending),
        !(blocks[at] is Heading) ==> emit_step(blocks, at, config, state).pending == state.pending,
{
}

/// The state after the cursor has gone from index `at` up to index `stop`.
pub open spec fn emit_until(
    blocks: Seq<BlockModel>,
    at: int,
    stop: int,
    config: ConfigModel,
    state: EmitState,
) -> EmitState
    decreases stop - at + 1,
{
    if at < 0 || at >= stop || at >= blocks.len() {
        state
    } else {
        emit_until(
            blocks,
            at + step_width(blocks, at),
            stop,
            config,
            emit_step(blocks, at, config, state),
        )
    }
}

/// The headings that the cursor reaches on its way from index `at` up to
/// index `stop`, each with the length of its section. A heading that another
/// heading takes along is not among them.
pub open spec fn cursor_visits(blocks: Seq<BlockModel>, at: int, stop: int) -> Seq<Visit>
    decreases stop - at + 1,
{
    if at < 0 || at >= stop || at >= blocks.len() {
        Seq::empty()
    } else {
        (match blocks[at] {
            BlockModel::Heading { level, .. } => seq![
                Visit { level, lines: section_lines(blocks, at) },
            ],
            _ => Seq::empty(),
        }) + cursor_visits(blocks, at + step_width(blocks, at), stop)
    }
}

/// Going to the end of the document is going up to its length.
pub proof fn lemma_emit_from_is_emit_until(
    blocks: Seq<BlockModel>,
    at: int,
    config: ConfigModel,
    state: EmitState,
)
    ensures
        emit_from(blocks, at, config, state) == emit_until(
            blocks,
            at,
            blocks.len() as int,
            config,
            state,
        ),
    decreases blocks.len() - at,
{
    if 0 <= at < blocks.len() {
        lemma_emit_from_is_emit_until(
            blocks,
            at + step_width(blocks, at),
            config,
            emit_step(blocks, at, config, state),
        );
    }
}

/// The obligation that the emitter holds after any stretch of the document
/// is the one that the break decisions at the headings it reached leave
/// behind. With [`lemma_owed_break_once`](crate::layout::lemma_owed_break_once)
/// this says when the break after a long section comes: at the next heading
/// of its level or above that the cursor reaches, and at no other.
pub proof fn lemma_obligation_follows_visits(
    blocks: Seq<BlockModel>,
    at: int,
    stop: int,
    config: ConfigModel,
    state: EmitState,
)
    ensures
        emit_until(blocks, at, stop, config, state).pending == pending_through(
            config,
            state.pending,
            cursor_visits(blocks, at, stop),
        ),
    decreases stop - at + 1,
{
    if at < 0 || at >= stop || at >= blocks.len() {
    } else {
        let next = emit_step(blocks, at, config, state);
        let rest = cursor_visits(blocks, at + step_width(blocks, at), stop);
        lemma_obligation_follows_visits(blocks, at + step_width(blocks, at), stop, config, next);
        match blocks[at] {
            BlockModel::Heading { level, .. } => {
                let visit = Visit { level, lines: section_lines(blocks, at) };
                lemma_visits_split(config, state.pending, seq![visit], rest);
                assert(seq![visit].drop_last() == Seq::<Visit>::empty());
                assert(pending_through(config, state.pending, seq![visit]) == next.pending) by {
                    reveal_with_fuel(pending_through, 2);
                }
            },
            _ => {
                assert(Seq::<Visit>::empty() + rest == rest);
            },
        }
    }
}

/// Removes a horizontal rule from the very end of the output, where one
/// stands there.
///
/// The characters are taken off the end one by one as long as they are
/// those of a rule, read backwards; where they are not, what was taken is
/// put back.
pub fn strip_trailing_rule(out: &mut String)
    ensures
        final(out)@ == strip_rule(old(out)@),
{
    let rule = chars_of(RULE);
    let n = rule.len();
    let ghost before = out@;
    let mut taken: Vec<char> = Vec::new();
    let mut matching = true;
    while matching && taken.len() < n
        invariant
            n == rule@.len(),
            rule@ == RULE@,
            before == old(out)@,
            taken@.len() <= n,
            taken@.len() <= before.len(),
            out@ == before.take(before.len() - taken@.len()),
            forall|i: int| 0 <= i < taken@.len() ==> taken@[i] == before[before.len() - 1 - i],
            matching ==> forall|i: int| 0 <= i < taken@.len() ==> taken@[i] == rule@[n - 1 - i],
            !matching ==> !has_suffix(before, RULE@),
        decreases n - taken@.len() + if matching { 1int } else { 0int },
    {
        let ghost count = taken@.len() as int;
        match out.pop() {
            Some(c) => {
                assert(c == before[before.len() - 1 - count]);
                assert(out@ == before.take(before.len() - count - 1));
                if c != rule[n - 1 - taken.len()] {
                    matching = false;
                    proof {
                        if has_suffix(before, RULE@) {
                            let tail = before.skip(before.len() - n);
                            assert(tail[n - 1 - count] == before[before.len() - 1 - count]);
                        }
                    }
                }
                taken.push(c);
            },
            None => {
                matching = false;
            },
        }
    }
    if matching {
        proof {
            let tail = before.skip(before.len() - n);
            assert forall|k: int| 0 <= k < n implies tail[k] == rule@[k] by {
                let i = n - 1 - k;
                assert(taken@[i] == before[before.len() - 1 - i]);
                assert(taken@[i] == rule@[n - 1 - i]);
            }
            assert(tail == RULE@);
        }
    } else {
        while taken.len() > 0
            invariant
                taken@.len() <= before.len(),
                out@ == before.take(before.len() - taken@.len()),
                forall|i: int| 0 <= i < taken@.len() ==> taken@[i] == before[before.len() - 1 - i],
            decreases taken@.len(),
        {
            let ghost count = taken@.len() as int;
            match taken.pop() {
                Some(c) => {
                    out.push(c);
                    assert(out@ == before.take(before.len() - count + 1));
                },
                None => {},
            }
        }
        assert(out@ == before);
    }
}

/// Appends the markup of a heading; a block that is no heading adds
/// nothing.
pub fn emit_heading(block: &Block, out: &mut String)
    ensures
        final(out)@ == old(out)@ + (match block@ {
            BlockModel::Heading { level, content } => heading_markup(level, content),
            _ => Seq::empty(),
        }),
{
    match block {
        Block::Heading { level, content } => {
            push_heading(*level, content, out);
        },
        _ => {},
    }
}

/// Emits one block at the end of the output.
pub fn emit_block(block: &Block, out: &mut String)
    ensures
        final(out)@ == after_block(old(out)@, block@),
{
    match block {
        Block::Heading { .. } => {
            emit_heading(block, out);
        },
        Block::Paragraph { content } => {
            spans_to_typst(content, out);
            out.push('\n');
            out.push('\n');
        },
        Block::CodeBlock { language, content } => {
            out.append(CODE_OPEN);
            match language {
                Some(name) => {
                    out.append(name.as_str());
                },
                None => {},
            }
            out.push('\n');
            out.append(content.as_str());
            if !ends_with(content.as_str(), NEWLINE) {
                out.push('\n');
            }
            out.append(CODE_CLOSE);
        },
        Block::List(list) => {
            proof {
                reveal_strlit("");
                assert(""@ == Seq::<char>::empty());
            }
            let item_count = count_list_items(list);
            if item_count <= KEEP_TOGETHER_LIMIT {
                out.append(BLOCK_OPEN);
                list_to_typst(list, "", out);
                out.append(BLOCK_CLOSE);
            } else {
                list_to_typst(list, "", out);
                out.push('\n');
            }
        },
        Block::Table { headers, rows } => {
            out.append(BLOCK_OPEN);
            table_to_typst(headers, rows, out);
            out.append(BLOCK_CLOSE);
        },
        Block::Rule => {
            out.append(RULE);
        },
        Block::PageBreak => {
            strip_trailing_rule(out);
            out.append(PAGE_BREAK);
        },
    }
}

/// Appends the preamble.
fn emit_preamble(config: &Config, out: &mut String)
    ensures
        final(out)@ == old(out)@ + preamble(config@),
{
    out.append(PARAGRAPH_SETUP);
    if config.font.sans {
        out.append(SANS_FONT_SETUP);
    }
    if config.page.numbers {
        out.append(PAGE_NUMBER_SETUP);
    }
    if config.links.underline {
        out.append(UNDERLINED_LINK_OPEN);
        out.append(config.links.color.as_str());
        out.append(UNDERLINED_LINK_CLOSE);
    } else {
        out.append(PLAIN_LINK_OPEN);
        out.append(config.links.color.as_str());
        out.append(PLAIN_LINK_CLOSE);
    }
    out.push('\n');
}

/// Appends what goes before the heading at index `at` and returns the
/// obligation that is pending after it.
fn emit_lead(
    blocks: &Vec<Block>,
    at: usize,
    level: u8,
    config: &Config,
    pending: Option<u8>,
    out: &mut String,
) -> (next: Option<u8>)
    requires
        at < blocks@.len(),
        blocks@[at as int]@ matches BlockModel::Heading { level: l, .. } && l == level,
    ensures
        final(out)@ == after_lead(
            old(out)@,
            config@,
            level,
            section_lines(blocks_model(blocks@), at as int),
            pending,
        ),
        next == pending_after(
            config@,
            level,
            section_lines(blocks_model(blocks@), at as int),
            pending,
        ),
{
    let section_lines = count_section_lines(blocks, at);
    let force_break = break_forced(config, level, section_lines);
    let end_break_due = match pending {
        Some(owed) => level <= owed,
        None => false,
    };
    if force_break {
        strip_trailing_rule(out);
        out.append(WEAK_PAGE_BREAK);
        Some(level)
    } else if end_break_due {
        strip_trailing_rule(out);
        out.append(WEAK_PAGE_BREAK);
        None
    } else {
        match config.layout.min_space_for_heading(level) {
            Some(min_space) => {
                out.append(RESERVE_OPEN);
                out.append(min_space);
                out.append(RESERVE_MIDDLE);
                out.append(min_space);
                out.append(RESERVE_CLOSE);
            },
            None => {},
        }
        pending
    }
}

/// Converts the blocks of a document to Typst markup.
///
/// The function is total and depends on nothing but its arguments.
pub fn blocks_to_typst(blocks: &Vec<Block>, config: &Config) -> (markup: String)
    ensures
        markup@ == emit_document(blocks_model(blocks@), config@),
{
    let ghost model = blocks_model(blocks@);
    let mut out = String::new();
    emit_preamble(config, &mut out);
    assert(out@ == preamble(config@));
    let mut pending_end_break_level: Option<u8> = None;
    let n = blocks.len();
    let mut i: usize = 0;
    while i < n
        invariant
            i <= n,
            n == blocks@.len(),
            model == blocks_model(blocks@),
            emit_from(
                model,
                i as int,
                config@,
                EmitState { out: out@, pending: pending_end_break_level },
            ) == emit_from(model, 0, config@, EmitState { out: preamble(config@), pending: None }),
        decreases n - i,
    {
        let block = &blocks[i];
        assert(model[i as int] == block@);
        let ghost state = EmitState { out: out@, pending: pending_end_break_level };
        let ghost at = i as int;
        match block {
            Block::Heading { level, .. } => {
                pending_end_break_level =
                emit_lead(blocks, i, *level, config, pending_end_break_level, &mut out);
                out.append(BLOCK_OPEN);
                emit_heading(block, &mut out);
                if i + 1 < n {
                    assert(model[i + 1] == blocks[i + 1]@);
                    i += 1;
                    emit_block(&blocks[i], &mut out);
                }
                out.append(BLOCK_CLOSE);
            },
            _ => {
                emit_block(block, &mut out);
            },
        }
        i += 1;
        assert(i == at + step_width(model, at));
        assert(EmitState { out: out@, pending: pending_end_break_level } == emit_step(
            model,
            at,
            config@,
            state,
        ));
    }
    out
}

} // verus!

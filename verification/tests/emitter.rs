use pdf_core::layout::{
    break_forced, count_list_lines, count_section_lines, estimate_block_lines, span_char_count,
    spans_char_count,
};
use pdf_core::markup::{
    collect_span_text, count_list_items, escape_needed, heading_to_label, list_to_typst,
    push_cells, push_escaped, push_heading, span_to_typst, spans_to_typst, table_to_typst, Escape,
};
use pdf_core::typst::{blocks_to_typst, emit_block, emit_heading, strip_trailing_rule};
use pdf_core::{
    markdown_to_typst, markdown_to_typst_with_config, Block, Config, List, ListItem, Span,
};

const STANDARD: &str = "#set par(linebreaks: \"optimized\")\n#show link: it => underline(text(fill: rgb(\"#1a4f8b\"), it))\n\n";
const OPEN: &str = "#block(breakable: false)[\n";
const CLOSE: &str = "]\n\n";
const WEAK: &str = "#pagebreak(weak: true)\n";

fn text(s: &str) -> Span {
    Span::Text(s.to_string())
}

fn paragraph(s: &str) -> Block {
    Block::Paragraph { content: vec![text(s)] }
}

fn heading(level: u8, s: &str) -> Block {
    Block::Heading { level, content: vec![text(s)] }
}

fn item(s: &str) -> ListItem {
    ListItem { content: vec![text(s)], nested: None, checked: None }
}

fn flat_list(n: usize) -> List {
    List { ordered: false, items: (0..n).map(|i| item(&format!("i{i}"))).collect() }
}

fn emit(blocks: Vec<Block>) -> String {
    blocks_to_typst(&blocks, &Config::default())
}

fn body(blocks: Vec<Block>) -> String {
    let out = emit(blocks);
    assert!(out.starts_with(STANDARD));
    out[STANDARD.len()..].to_string()
}

fn inline(spans: Vec<Span>) -> String {
    let mut out = String::new();
    spans_to_typst(&spans, &mut out);
    out
}

fn count(haystack: &str, needle: &str) -> usize {
    haystack.matches(needle).count()
}

#[test]
fn empty_document_is_the_preamble() {
    assert_eq!(emit(vec![]), STANDARD);
    assert_eq!(markdown_to_typst(""), STANDARD);
}

#[test]
fn preamble_follows_the_configuration() {
    let mut config = Config::default();
    config.font.sans = true;
    config.page.numbers = true;
    config.links.underline = false;
    config.links.color = "#ff0000".to_string();
    assert_eq!(
        blocks_to_typst(&vec![], &config),
        "#set par(linebreaks: \"optimized\")\n#set text(font: \"Open Sans\")\n#set page(numbering: \"1\")\n#show link: it => text(fill: rgb(\"#ff0000\"), it)\n\n"
    );
    config.font.sans = false;
    assert_eq!(
        markdown_to_typst_with_config("hi", &config),
        "#set par(linebreaks: \"optimized\")\n#set page(numbering: \"1\")\n#show link: it => text(fill: rgb(\"#ff0000\"), it)\n\nhi\n\n"
    );
    config.page.numbers = false;
    config.font.sans = true;
    config.links.underline = true;
    assert_eq!(
        blocks_to_typst(&vec![], &config),
        "#set par(linebreaks: \"optimized\")\n#set text(font: \"Open Sans\")\n#show link: it => underline(text(fill: rgb(\"#ff0000\"), it))\n\n"
    );
}

#[test]
fn single_heading_at_every_level() {
    for level in 1..=6u8 {
        let marks = "=".repeat(level as usize);
        assert_eq!(
            emit(vec![heading(level, "Hello")]),
            format!("{STANDARD}{OPEN}{marks} Hello <hello>\n\n{CLOSE}")
        );
    }
}

#[test]
fn heading_without_label() {
    assert_eq!(body(vec![heading(1, "!?")]), format!("{OPEN}= !?\n\n{CLOSE}"));
    assert_eq!(body(vec![Block::Heading { level: 2, content: vec![] }]), format!("{OPEN}== \n\n{CLOSE}"));
}

#[test]
fn heading_shares_its_group_with_the_next_block() {
    assert_eq!(
        body(vec![heading(1, "Title"), paragraph("Some text."), paragraph("More.")]),
        format!("{OPEN}= Title <title>\n\nSome text.\n\n{CLOSE}More.\n\n")
    );
    assert_eq!(
        body(vec![heading(2, "L"), Block::List(flat_list(2))]),
        format!("{OPEN}== L <l>\n\n{OPEN}- i0\n- i1\n{CLOSE}{CLOSE}")
    );
}

#[test]
fn heading_taken_along_by_a_heading_takes_nothing_along() {
    assert_eq!(
        body(vec![heading(1, "A"), heading(2, "B"), paragraph("text")]),
        format!("{OPEN}= A <a>\n\n== B <b>\n\n{CLOSE}text\n\n")
    );
}

#[test]
fn all_reserved_characters_are_escaped_once() {
    assert_eq!(
        inline(vec![text("#*_@$\\`<>[]")]),
        "\\#\\*\\_\\@\\$\\\\\\`\\<\\>\\[\\]"
    );
    assert_eq!(inline(vec![text("a * b")]), "a \\* b");
    assert_eq!(inline(vec![text("a_b")]), "a\\_b");
    assert_eq!(inline(vec![text("a \\* b")]), "a \\\\\\* b");
    assert_eq!(inline(vec![text("plain, text! (1+2=3) {x} ~ ^ & % \" '")]), "plain, text! (1+2=3) {x} ~ ^ & % \" '");
    for c in ['#', '*', '_', '@', '$', '\\', '`', '<', '>', '[', ']'] {
        assert!(escape_needed(Escape::Markup, c));
        let mut out = String::new();
        push_escaped(&mut out, &c.to_string(), Escape::Markup);
        assert_eq!(out, format!("\\{c}"));
    }
    for c in ['a', ' ', '"', '(', ')', '{', '}', '~', '=', '-', '+', '/', 'é'] {
        assert!(!escape_needed(Escape::Markup, c));
    }
}

#[test]
fn escaping_by_place() {
    let mut out = String::new();
    push_escaped(&mut out, "a`b\\c\"d*", Escape::Code);
    assert_eq!(out, "a\\`b\\c\"d*");
    let mut out = String::new();
    push_escaped(&mut out, "a`b\\c\"d*", Escape::Url);
    assert_eq!(out, "a`b\\\\c\\\"d*");
    let mut out = String::new();
    push_escaped(&mut out, "a`b\\c\"d*", Escape::Markup);
    assert_eq!(out, "a\\`b\\\\c\"d\\*");
    let mut out = String::from("keep");
    push_escaped(&mut out, "", Escape::Markup);
    assert_eq!(out, "keep");
}

#[test]
fn inline_spans() {
    assert_eq!(inline(vec![Span::Bold(vec![text("b")])]), "*b*");
    assert_eq!(inline(vec![Span::Italic(vec![text("i")])]), "_i_");
    assert_eq!(
        inline(vec![Span::Italic(vec![Span::Bold(vec![text("x*y")]), text("z")])]),
        "_*x\\*y*z_"
    );
    assert_eq!(inline(vec![Span::Code("a`b*c".to_string())]), "`a\\`b*c`");
    assert_eq!(inline(vec![text("a"), Span::LineBreak, text("b")]), "a \\\nb");
    assert_eq!(inline(vec![]), "");
    let mut out = String::from("x");
    span_to_typst(&Span::LineBreak, &mut out);
    assert_eq!(out, "x \\\n");
}

#[test]
fn links() {
    assert_eq!(
        inline(vec![Span::Link {
            url: "#getting-started".to_string(),
            content: vec![text("go [here]")]
        }]),
        "#link(<getting-started>)[go \\[here\\]]"
    );
    assert_eq!(
        inline(vec![Span::Link {
            url: "https://example.com/a\"b\\c#d".to_string(),
            content: vec![Span::Bold(vec![text("x")])]
        }]),
        "#link(\"https://example.com/a\\\"b\\\\c#d\")[*x*]"
    );
    assert_eq!(
        inline(vec![Span::Link { url: "#".to_string(), content: vec![] }]),
        "#link(<>)[]"
    );
    assert_eq!(
        inline(vec![Span::Link { url: String::new(), content: vec![text("t")] }]),
        "#link(\"\")[t]"
    );
    assert_eq!(
        markdown_to_typst("## Getting Started\n\n[jump](#getting-started)"),
        format!("{STANDARD}{OPEN}== Getting Started <getting-started>\n\n#link(<getting-started>)[jump]\n\n{CLOSE}")
    );
}

#[test]
fn labels() {
    assert_eq!(heading_to_label(&vec![text("Getting Started")]), "getting-started");
    assert_eq!(heading_to_label(&vec![text("A  B\tC\nD")]), "a--b-c-d");
    assert_eq!(heading_to_label(&vec![text("Über uns: 10% mehr!")]), "ber-uns-10-mehr");
    assert_eq!(heading_to_label(&vec![text("a-b_c.d")]), "a-bcd");
    assert_eq!(heading_to_label(&vec![text("!?")]), "");
    assert_eq!(heading_to_label(&vec![]), "");
    assert_eq!(
        heading_to_label(&vec![
            text("The "),
            Span::Bold(vec![text("Big"), Span::Italic(vec![text(" One")])]),
            Span::LineBreak,
            Span::Code("f(x)".to_string()),
            Span::Link { url: "https://x".to_string(), content: vec![text(" Now")] },
        ]),
        "the-big-one-fx-now"
    );
    for sample in ["Getting Started", "A  B", "Über uns: 10% mehr!", "a-b_c.d", "X\u{a0}Y\u{3000}Z", ""] {
        let label = heading_to_label(&vec![text(sample)]);
        assert!(label.chars().all(|c| c.is_ascii_lowercase() || c.is_ascii_digit() || c == '-'));
        assert!(label.chars().count() <= sample.chars().count());
        assert_eq!(heading_to_label(&vec![text(&label)]), label);
    }
    assert_eq!(heading_to_label(&vec![text("X\u{a0}Y\u{3000}Z")]), "x-y-z");
    let mut plain = String::from("> ");
    collect_span_text(
        &vec![text("a"), Span::LineBreak, Span::Bold(vec![text("B*")]), Span::Code("`c`".to_string())],
        &mut plain,
    );
    assert_eq!(plain, "> a B*`c`");
}

#[test]
fn heading_markup_by_parts() {
    let mut out = String::new();
    push_heading(3, &vec![text("A "), Span::Bold(vec![text("b#")])], &mut out);
    assert_eq!(out, "=== A *b\\#* <a-b>\n\n");
    let mut out = String::new();
    push_heading(0, &vec![text("z")], &mut out);
    assert_eq!(out, " z <z>\n\n");
    let mut out = String::from("x");
    emit_heading(&heading(2, "T"), &mut out);
    assert_eq!(out, "x== T <t>\n\n");
    emit_heading(&paragraph("not a heading"), &mut out);
    emit_heading(&Block::Rule, &mut out);
    assert_eq!(out, "x== T <t>\n\n");
}

#[test]
fn list_of_five_items_is_kept_together() {
    assert_eq!(
        body(vec![Block::List(flat_list(5))]),
        format!("{OPEN}- i0\n- i1\n- i2\n- i3\n- i4\n{CLOSE}")
    );
    let nested = List {
        ordered: true,
        items: vec![
            ListItem { content: vec![text("a")], nested: Some(Box::new(flat_list(2))), checked: None },
            item("b"),
            item("c"),
        ],
    };
    assert_eq!(count_list_items(&nested), 5);
    assert_eq!(
        body(vec![Block::List(nested)]),
        format!("{OPEN}+ a\n  - i0\n  - i1\n+ b\n+ c\n{CLOSE}")
    );
}

#[test]
fn list_of_six_items_may_break() {
    assert_eq!(
        body(vec![Block::List(flat_list(6))]),
        "- i0\n- i1\n- i2\n- i3\n- i4\n- i5\n\n"
    );
    let nested = List {
        ordered: false,
        items: vec![
            ListItem { content: vec![text("a")], nested: Some(Box::new(flat_list(3))), checked: None },
            item("b"),
            item("c"),
        ],
    };
    assert_eq!(count_list_items(&nested), 6);
    assert_eq!(body(vec![Block::List(nested)]), "- a\n  - i0\n  - i1\n  - i2\n- b\n- c\n\n");
}

#[test]
fn nested_lists_are_indented_by_depth() {
    let deepest = List { ordered: true, items: vec![item("c*")] };
    let middle = List {
        ordered: false,
        items: vec![ListItem { content: vec![text("b")], nested: Some(Box::new(deepest)), checked: Some(true) }],
    };
    let outer = List {
        ordered: true,
        items: vec![
            ListItem { content: vec![text("a")], nested: Some(Box::new(middle)), checked: None },
            item("d"),
        ],
    };
    assert_eq!(count_list_items(&outer), 4);
    assert_eq!(count_list_lines(&outer), 4);
    let mut out = String::new();
    list_to_typst(&outer, "", &mut out);
    assert_eq!(out, "+ a\n  - b\n    + c\\*\n+ d\n");
    let mut out = String::new();
    list_to_typst(&outer, "> ", &mut out);
    assert_eq!(out, "> + a\n>   - b\n>     + c\\*\n> + d\n");
    assert_eq!(count_list_items(&flat_list(0)), 0);
    assert_eq!(body(vec![Block::List(flat_list(0))]), format!("{OPEN}{CLOSE}"));
}

#[test]
fn tables() {
    let headers = vec![vec![text("A")], vec![text("B")]];
    let rows = vec![vec![vec![text("1")], vec![text("2")]]];
    assert_eq!(
        body(vec![Block::Table { headers, rows }]),
        format!("{OPEN}#table(\n  columns: 2,\n  [*A*],\n  [*B*],\n  [1],\n  [2],\n)\n{CLOSE}")
    );
    let mut out = String::new();
    table_to_typst(
        &vec![vec![text("x_y"), Span::Code("z".to_string())]],
        &vec![vec![vec![text("[1]")], vec![], vec![text("3")]], vec![]],
        &mut out,
    );
    assert_eq!(out, "#table(\n  columns: 1,\n  [*x\\_y`z`*],\n  [\\[1\\]],\n  [],\n  [3],\n)\n");
    let wide: Vec<Vec<Span>> = (0..12).map(|i| vec![text(&format!("h{i}"))]).collect();
    let mut out = String::new();
    table_to_typst(&wide, &vec![], &mut out);
    assert!(out.starts_with("#table(\n  columns: 12,\n  [*h0*],\n"));
    assert!(out.ends_with("  [*h11*],\n)\n"));
    let mut out = String::new();
    push_cells(&vec![vec![text("a")], vec![text("b")]], "<", ">", &mut out);
    assert_eq!(out, "<a><b>");
}

#[test]
fn table_without_headers_has_no_markup() {
    let mut out = String::from("x");
    table_to_typst(&vec![], &vec![vec![vec![text("1")]]], &mut out);
    assert_eq!(out, "x");
    assert_eq!(
        body(vec![Block::Table { headers: vec![], rows: vec![] }]),
        format!("{OPEN}{CLOSE}")
    );
}

#[test]
fn code_blocks() {
    assert_eq!(
        body(vec![Block::CodeBlock { language: Some("rust".to_string()), content: "let x = 1;\n".to_string() }]),
        format!("{OPEN}```rust\nlet x = 1;\n```\n{CLOSE}")
    );
    assert_eq!(
        body(vec![Block::CodeBlock { language: None, content: "a * b".to_string() }]),
        format!("{OPEN}```\na * b\n```\n{CLOSE}")
    );
    assert_eq!(
        body(vec![Block::CodeBlock { language: None, content: String::new() }]),
        format!("{OPEN}```\n\n```\n{CLOSE}")
    );
    assert_eq!(
        body(vec![Block::CodeBlock { language: None, content: "x\n\n".to_string() }]),
        format!("{OPEN}```\nx\n\n```\n{CLOSE}")
    );
}

#[test]
fn rule_and_page_break() {
    assert_eq!(body(vec![Block::Rule]), "#line(length: 100%)\n\n");
    assert_eq!(body(vec![Block::PageBreak]), "#pagebreak()\n\n");
    assert_eq!(body(vec![paragraph("a"), Block::Rule, Block::PageBreak]), "a\n\n#pagebreak()\n\n");
    assert_eq!(
        body(vec![Block::Rule, Block::Rule, Block::PageBreak, paragraph("b")]),
        "#line(length: 100%)\n\n#pagebreak()\n\nb\n\n"
    );
    assert_eq!(body(vec![Block::PageBreak, Block::Rule]), "#pagebreak()\n\n#line(length: 100%)\n\n");
    assert_eq!(
        markdown_to_typst("a\n\n***\n\n---pagebreak---\n\nb"),
        format!("{STANDARD}a\n\n#pagebreak()\n\nb\n\n")
    );
    assert_eq!(markdown_to_typst("---pagebreak---"), format!("{STANDARD}#pagebreak()\n\n"));
}

#[test]
fn rule_inside_a_group_is_not_taken_back() {
    assert_eq!(
        body(vec![heading(1, "H"), Block::Rule, Block::PageBreak]),
        format!("{OPEN}= H <h>\n\n#line(length: 100%)\n\n{CLOSE}#pagebreak()\n\n")
    );
    assert_eq!(
        body(vec![heading(1, "H"), Block::PageBreak]),
        format!("{OPEN}= H <h>\n\n#pagebreak()\n\n{CLOSE}")
    );
}

#[test]
fn strip_trailing_rule_takes_one_rule_from_the_end() {
    let mut out = String::from("a\n\n#line(length: 100%)\n\n");
    strip_trailing_rule(&mut out);
    assert_eq!(out, "a\n\n");
    strip_trailing_rule(&mut out);
    assert_eq!(out, "a\n\n");
    let mut out = String::from("#line(length: 100%)\n\n#line(length: 100%)\n\n");
    strip_trailing_rule(&mut out);
    assert_eq!(out, "#line(length: 100%)\n\n");
    let mut out = String::from("#line(length: 100%)\n");
    strip_trailing_rule(&mut out);
    assert_eq!(out, "#line(length: 100%)\n");
    let mut out = String::new();
    strip_trailing_rule(&mut out);
    assert_eq!(out, "");
    let mut out = String::from("ä#line(length: 100%)\n\n");
    strip_trailing_rule(&mut out);
    assert_eq!(out, "ä");
    for kept in [
        "\n",
        "\n\n",
        "100%)\n\n",
        "line(length: 100%)\n\n",
        "x#line(length: 100%)\n\nx",
        "#line(length: 10%)\n\n",
        "#Line(length: 100%)\n\n",
        "text\n\n",
        "ä\n\n",
    ] {
        let mut out = String::from(kept);
        strip_trailing_rule(&mut out);
        assert_eq!(out, kept);
    }
}

#[test]
fn emit_block_appends() {
    let mut out = String::from("x");
    emit_block(&paragraph("p"), &mut out);
    emit_block(&heading(2, "h"), &mut out);
    emit_block(&Block::Rule, &mut out);
    emit_block(&Block::PageBreak, &mut out);
    assert_eq!(out, "xp\n\n== h <h>\n\n#pagebreak()\n\n");
}

#[test]
fn character_counts() {
    assert_eq!(span_char_count(&text("hello")), 5);
    assert_eq!(span_char_count(&text("")), 0);
    assert_eq!(span_char_count(&text("äöü")), 3);
    assert_eq!(span_char_count(&Span::Code("ab".to_string())), 2);
    assert_eq!(span_char_count(&Span::LineBreak), 1);
    assert_eq!(span_char_count(&Span::Bold(vec![text("ab"), Span::Italic(vec![text("cde")])])), 5);
    assert_eq!(
        span_char_count(&Span::Link { url: "https://long.example".to_string(), content: vec![text("xy")] }),
        2
    );
    assert_eq!(spans_char_count(&vec![text("ab"), Span::LineBreak, Span::Code("c".to_string())]), 4);
    assert_eq!(spans_char_count(&vec![]), 0);
}

#[test]
fn block_line_estimates() {
    let long = |n: usize| Block::Paragraph { content: vec![text(&"x".repeat(n))] };
    assert_eq!(estimate_block_lines(&long(0)), 1);
    assert_eq!(estimate_block_lines(&long(79)), 1);
    assert_eq!(estimate_block_lines(&long(80)), 1);
    assert_eq!(estimate_block_lines(&long(159)), 1);
    assert_eq!(estimate_block_lines(&long(160)), 2);
    assert_eq!(estimate_block_lines(&long(800)), 10);
    assert_eq!(estimate_block_lines(&Block::Paragraph { content: vec![] }), 1);
    assert_eq!(
        estimate_block_lines(&Block::Paragraph { content: vec![text(&"ä".repeat(160))] }),
        2
    );
    assert_eq!(
        estimate_block_lines(&Block::CodeBlock { language: None, content: "a\nb\nc\n".to_string() }),
        3
    );
    assert_eq!(estimate_block_lines(&Block::CodeBlock { language: None, content: String::new() }), 0);
    assert_eq!(estimate_block_lines(&Block::List(flat_list(4))), 4);
    assert_eq!(
        estimate_block_lines(&Block::Table {
            headers: vec![vec![], vec![]],
            rows: vec![vec![], vec![], vec![]]
        }),
        6
    );
    assert_eq!(estimate_block_lines(&Block::Table { headers: vec![], rows: vec![] }), 1);
    assert_eq!(estimate_block_lines(&Block::Rule), 1);
    assert_eq!(estimate_block_lines(&heading(4, "h")), 2);
    assert_eq!(estimate_block_lines(&Block::PageBreak), 0);
}

#[test]
fn section_lengths() {
    let blocks = vec![
        heading(2, "A"),                                               // 0
        paragraph("short"),                                            // 1 -> 1
        Block::Paragraph { content: vec![text(&"x".repeat(240))] },    // 2 -> 3
        heading(3, "A.1"),                                             // 3 -> 2
        Block::List(flat_list(3)),                                     // 4 -> 3
        Block::PageBreak,                                              // 5 -> 0
        Block::Rule,                                                   // 6 -> 1
        heading(2, "B"),                                               // 7
        Block::CodeBlock { language: None, content: "1\n2".to_string() }, // 8 -> 2
        heading(1, "C"),                                               // 9
    ];
    assert_eq!(count_section_lines(&blocks, 0), 10);
    assert_eq!(count_section_lines(&blocks, 3), 4);
    assert_eq!(count_section_lines(&blocks, 7), 2);
    assert_eq!(count_section_lines(&blocks, 9), 0);
    assert_eq!(count_section_lines(&blocks, 1), 0);
    assert_eq!(count_section_lines(&blocks, 6), 0);
    assert_eq!(count_section_lines(&vec![heading(1, "only")], 0), 0);
    assert_eq!(count_section_lines(&vec![heading(3, "a"), heading(3, "b"), paragraph("p")], 0), 0);
    assert_eq!(count_section_lines(&vec![heading(3, "a"), heading(4, "b"), paragraph("p")], 0), 3);
}

#[test]
fn forced_break_decision() {
    let mut config = Config::default();
    config.layout.h2_break_if_lines = Some(10);
    assert!(break_forced(&config, 2, 10));
    assert!(break_forced(&config, 2, 11));
    assert!(break_forced(&config, 2, usize::MAX));
    assert!(!break_forced(&config, 2, 9));
    assert!(!break_forced(&config, 1, 100));
    assert!(!break_forced(&config, 3, 100));
    config.layout.h2_break_if_lines = Some(0);
    assert!(break_forced(&config, 2, 0));
}

fn long_section_config(threshold: usize) -> Config {
    let mut config = Config::default();
    config.layout.h2_break_if_lines = Some(threshold);
    config
}

#[test]
fn long_section_gets_a_break_before_and_after() {
    let config = long_section_config(4);
    let blocks = vec![
        paragraph("intro"),
        heading(2, "Long"),
        paragraph("1"),
        paragraph("2"),
        heading(3, "Deeper"),
        paragraph("3"),
        heading(3, "Deeper still"),
        paragraph("4"),
        heading(2, "Next"),
        paragraph("5"),
        heading(2, "Last"),
        paragraph("6"),
    ];
    let out = blocks_to_typst(&blocks, &config);
    let expected = format!(
        "{STANDARD}intro\n\n{WEAK}{OPEN}== Long <long>\n\n1\n\n{CLOSE}2\n\n{OPEN}=== Deeper <deeper>\n\n3\n\n{CLOSE}{OPEN}=== Deeper still <deeper-still>\n\n4\n\n{CLOSE}{WEAK}{OPEN}== Next <next>\n\n5\n\n{CLOSE}{OPEN}== Last <last>\n\n6\n\n{CLOSE}"
    );
    assert_eq!(out, expected);
    assert_eq!(count(&out, WEAK), 2);
}

#[test]
fn section_below_the_threshold_gets_no_break() {
    let config = long_section_config(5);
    let blocks = vec![heading(2, "Short"), paragraph("1"), heading(3, "x"), paragraph("2"), heading(2, "Next")];
    let out = blocks_to_typst(&blocks, &config);
    assert_eq!(count(&out, "#pagebreak"), 0);
    let config = long_section_config(4);
    let out = blocks_to_typst(&blocks, &config);
    assert_eq!(count(&out, WEAK), 2);
}

#[test]
fn higher_heading_discharges_the_obligation() {
    let config = long_section_config(2);
    let blocks = vec![heading(2, "Long"), paragraph("1"), paragraph("2"), heading(1, "Top"), paragraph("3")];
    assert_eq!(
        blocks_to_typst(&blocks, &config),
        format!("{STANDARD}{WEAK}{OPEN}== Long <long>\n\n1\n\n{CLOSE}2\n\n{WEAK}{OPEN}= Top <top>\n\n3\n\n{CLOSE}")
    );
}

#[test]
fn obligation_without_a_closing_heading_stays_open() {
    let config = long_section_config(2);
    let blocks = vec![heading(2, "Long"), paragraph("1"), paragraph("2"), heading(3, "d"), paragraph("3")];
    let out = blocks_to_typst(&blocks, &config);
    assert_eq!(count(&out, WEAK), 1);
    assert!(out.starts_with(&format!("{STANDARD}{WEAK}{OPEN}== Long")));
}

#[test]
fn two_long_sections_in_a_row_break_once_between_them() {
    let config = long_section_config(2);
    let blocks = vec![
        heading(2, "One"),
        paragraph("1"),
        paragraph("2"),
        heading(2, "Two"),
        paragraph("3"),
        paragraph("4"),
        heading(2, "Three"),
    ];
    let out = blocks_to_typst(&blocks, &config);
    assert_eq!(
        out,
        format!("{STANDARD}{WEAK}{OPEN}== One <one>\n\n1\n\n{CLOSE}2\n\n{WEAK}{OPEN}== Two <two>\n\n3\n\n{CLOSE}4\n\n{WEAK}{OPEN}== Three <three>\n\n{CLOSE}")
    );
}

#[test]
fn heading_taken_along_by_another_discharges_nothing() {
    let config = long_section_config(3);
    let blocks = vec![
        heading(2, "Long"),
        paragraph("1"),
        heading(3, "Deeper"),
        heading(2, "Next"),
        paragraph("2"),
        heading(2, "Later"),
    ];
    let out = blocks_to_typst(&blocks, &config);
    assert_eq!(
        out,
        format!("{STANDARD}{WEAK}{OPEN}== Long <long>\n\n1\n\n{CLOSE}{OPEN}=== Deeper <deeper>\n\n== Next <next>\n\n{CLOSE}2\n\n{WEAK}{OPEN}== Later <later>\n\n{CLOSE}")
    );
}

#[test]
fn break_before_a_heading_replaces_a_rule() {
    let config = long_section_config(1);
    let blocks = vec![paragraph("a"), Block::Rule, heading(2, "Long"), paragraph("1"), Block::Rule, heading(2, "Next")];
    assert_eq!(
        blocks_to_typst(&blocks, &config),
        format!("{STANDARD}a\n\n{WEAK}{OPEN}== Long <long>\n\n1\n\n{CLOSE}{WEAK}{OPEN}== Next <next>\n\n{CLOSE}")
    );
}

#[test]
fn space_reservation() {
    let mut config = Config::default();
    config.layout.h1_min_space = Some("3cm".to_string());
    let blocks = vec![heading(1, "A"), paragraph("p"), heading(2, "B")];
    assert_eq!(
        blocks_to_typst(&blocks, &config),
        format!("{STANDARD}#block(breakable: false, height: 3cm)\n#v(-3cm, weak: true)\n{OPEN}= A <a>\n\np\n\n{CLOSE}{OPEN}== B <b>\n\n{CLOSE}")
    );
}

#[test]
fn a_break_takes_the_place_of_a_reservation() {
    let mut config = long_section_config(1);
    config.layout.h2_min_space = Some("2cm".to_string());
    let blocks = vec![heading(2, "Long"), paragraph("1"), heading(2, "Short"), heading(2, "x"), heading(2, "Plain")];
    assert_eq!(
        blocks_to_typst(&blocks, &config),
        format!("{STANDARD}{WEAK}{OPEN}== Long <long>\n\n1\n\n{CLOSE}{WEAK}{OPEN}== Short <short>\n\n== x <x>\n\n{CLOSE}#block(breakable: false, height: 2cm)\n#v(-2cm, weak: true)\n{OPEN}== Plain <plain>\n\n{CLOSE}")
    );
}

#[test]
fn conversion_is_repeatable() {
    let md = "# T\n\ntext with *emphasis* and `code`\n\n- a\n- b\n\n| x |\n|---|\n| 1 |\n";
    assert_eq!(markdown_to_typst(md), markdown_to_typst(md));
    assert_eq!(
        markdown_to_typst(md),
        format!("{STANDARD}{OPEN}= T <t>\n\ntext with _emphasis_ and `code`\n\n{CLOSE}{OPEN}- a\n- b\n{CLOSE}{OPEN}#table(\n  columns: 1,\n  [*x*],\n  [1],\n)\n{CLOSE}")
    );
}

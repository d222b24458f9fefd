use pdf_core::text::{
    chars_of, count_lines, digit_char, ends_with, is_ascii_alphanumeric, match_at, push_chars,
    push_decimal, push_repeated, saturating_sum, take_string, take_vec, to_ascii_lower,
    trimmed_equals,
};

fn chars(s: &str) -> Vec<char> {
    s.chars().collect()
}

#[test]
fn chars_of_keeps_every_character() {
    assert_eq!(chars_of("aß語\n"), vec!['a', 'ß', '語', '\n']);
    assert_eq!(chars_of(""), Vec::<char>::new());
}

#[test]
fn count_lines_counts_physical_lines() {
    assert_eq!(count_lines(""), 0);
    assert_eq!(count_lines("a"), 1);
    assert_eq!(count_lines("a\n"), 1);
    assert_eq!(count_lines("a\nb"), 2);
    assert_eq!(count_lines("a\nb\n"), 2);
    assert_eq!(count_lines("\n"), 1);
    assert_eq!(count_lines("\n\n"), 2);
    assert_eq!(count_lines("a\n\nb"), 3);
    assert_eq!(count_lines("a\r\nb\r\n"), 2);
    for sample in ["", "x", "x\n", "\n\nx", "a\nb\nc\n\n", "ä\nö"] {
        assert_eq!(count_lines(sample), sample.lines().count());
    }
}

#[test]
fn decimal_digits() {
    for (n, expected) in [(0usize, "0"), (7, "7"), (10, "10"), (12, "12"), (909, "909"), (1000, "1000")] {
        let mut out = String::from("n=");
        push_decimal(&mut out, n);
        assert_eq!(out, format!("n={expected}"));
    }
    let mut out = String::new();
    push_decimal(&mut out, usize::MAX);
    assert_eq!(out, usize::MAX.to_string());
    assert_eq!(digit_char(0), '0');
    assert_eq!(digit_char(9), '9');
}

#[test]
fn ascii_classes() {
    assert_eq!(to_ascii_lower('A'), 'a');
    assert_eq!(to_ascii_lower('Z'), 'z');
    assert_eq!(to_ascii_lower('m'), 'm');
    assert_eq!(to_ascii_lower('Ä'), 'Ä');
    assert_eq!(to_ascii_lower('@'), '@');
    assert_eq!(to_ascii_lower('['), '[');
    for c in ['0', '9', 'a', 'z', 'A', 'Z'] {
        assert!(is_ascii_alphanumeric(c));
    }
    for c in ['/', ':', '@', '[', '`', '{', '-', ' ', 'é'] {
        assert!(!is_ascii_alphanumeric(c));
    }
    for code in 0..0x250u32 {
        if let Some(c) = char::from_u32(code) {
            assert_eq!(to_ascii_lower(c), c.to_ascii_lowercase());
            assert_eq!(is_ascii_alphanumeric(c), c.is_ascii_alphanumeric());
        }
    }
}

#[test]
fn searching() {
    let hay = chars("ab\n---cd\n---");
    let needle = chars("\n---");
    assert!(match_at(&hay, &needle, 2));
    assert!(!match_at(&hay, &needle, 3));
    assert!(!match_at(&hay, &needle, 9));
    assert!(!match_at(&hay, &needle, 100));
    assert!(match_at(&hay, &chars(""), 12));
    assert!(!match_at(&hay, &chars(""), 13));
}

#[test]
fn suffixes() {
    assert!(ends_with("abc", "bc"));
    assert!(ends_with("abc", "abc"));
    assert!(ends_with("abc", ""));
    assert!(ends_with("", ""));
    assert!(!ends_with("abc", "ab"));
    assert!(!ends_with("bc", "abc"));
    assert!(!ends_with("", "a"));
    assert!(ends_with("x\n", "\n"));
    assert!(!ends_with("x\n ", "\n"));
    assert!(ends_with("aä語", "ä語"));
    for (text, suffix) in [("abc", "c"), ("abc", "d"), ("a\n\n", "\n\n"), ("ä", "ä"), ("", "x")] {
        assert_eq!(ends_with(text, suffix), text.ends_with(suffix));
    }
}

#[test]
fn whitespace_is_the_unicode_property() {
    let listed = |c: char| {
        ('\u{9}'..='\u{d}').contains(&c)
            || c == ' '
            || c == '\u{85}'
            || c == '\u{a0}'
            || c == '\u{1680}'
            || ('\u{2000}'..='\u{200a}').contains(&c)
            || c == '\u{2028}'
            || c == '\u{2029}'
            || c == '\u{202f}'
            || c == '\u{205f}'
            || c == '\u{3000}'
    };
    for code in 0..=0x10ffffu32 {
        if let Some(c) = char::from_u32(code) {
            assert_eq!(c.is_whitespace(), listed(c), "U+{code:04X}");
            let padded = format!("{c}word{c}");
            assert_eq!(trimmed_equals(&padded, "word"), listed(c), "U+{code:04X}");
        }
    }
}

#[test]
fn trimming() {
    assert!(trimmed_equals("  word \n", "word"));
    assert!(trimmed_equals("word", "word"));
    assert!(trimmed_equals("   ", ""));
    assert!(trimmed_equals("", ""));
    assert!(!trimmed_equals("wo rd", "word"));
    assert!(!trimmed_equals("word.", "word"));
    assert!(!trimmed_equals(" a b ", "a"));
    assert!(trimmed_equals(" a b ", "a b"));
}

#[test]
fn pushing() {
    let mut out = String::from(">");
    push_chars(&mut out, &chars("hello"), 1, 4);
    assert_eq!(out, ">ell");
    push_chars(&mut out, &chars("hello"), 2, 2);
    assert_eq!(out, ">ell");
    push_repeated(&mut out, '=', 3);
    assert_eq!(out, ">ell===");
    push_repeated(&mut out, '=', 0);
    assert_eq!(out, ">ell===");
}

#[test]
fn taking_leaves_an_empty_value() {
    let mut s = String::from("abc");
    assert_eq!(take_string(&mut s), "abc");
    assert_eq!(s, "");
    let mut v = vec![1, 2, 3];
    assert_eq!(take_vec(&mut v), vec![1, 2, 3]);
    assert!(v.is_empty());
}

#[test]
fn sums_stop_at_the_limit() {
    assert_eq!(saturating_sum(2, 3), 5);
    assert_eq!(saturating_sum(usize::MAX, 1), usize::MAX);
    assert_eq!(saturating_sum(usize::MAX - 1, 1), usize::MAX);
    assert_eq!(saturating_sum(1, usize::MAX), usize::MAX);
}

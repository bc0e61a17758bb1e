use xtask::text::{chars_of, is_ascii_whitespace, is_whitespace, line_spans, span_equals, trim_span, word_spans};

fn pieces(s: &str, spans: &[(usize, usize)]) -> Vec<String> {
    let cs: Vec<char> = s.chars().collect();
    spans.iter().map(|&(a, b)| cs[a..b].iter().collect()).collect()
}

#[test]
fn lines_follow_str_lines() {
    for s in ["", "a", "a\n", "a\n\n", "\n", "foo\r\nbar\n\nbaz\r", "x\r\ny", "\r\n", "a\rb\n"] {
        let cs = chars_of(s);
        let spans = line_spans(&cs);
        let expected: Vec<String> = s.lines().map(|l| l.to_string()).collect();
        assert_eq!(pieces(s, &spans), expected, "lines of {s:?}");
    }
}

#[test]
fn words_follow_split_ascii_whitespace() {
    for s in ["", "  ", "a b", " a\t\tb \x0c c\r", "a\u{a0}b c", "x\u{b}y z"] {
        let cs = chars_of(s);
        let spans = word_spans(&cs, 0, cs.len());
        let expected: Vec<String> = s.split_ascii_whitespace().map(|w| w.to_string()).collect();
        assert_eq!(pieces(s, &spans), expected, "words of {s:?}");
    }
}

#[test]
fn words_of_a_middle_range() {
    let s = "ab cd ef";
    let cs = chars_of(s);
    let spans = word_spans(&cs, 1, 7);
    assert_eq!(spans, vec![(1, 2), (3, 5), (6, 7)]);
}

#[test]
fn trim_follows_str_trim() {
    for s in ["", "   ", " a ", "\u{3000}x y\u{2028}", "\u{85}z\u{a0}", "\u{200b}q"] {
        let cs = chars_of(s);
        let (a, b) = trim_span(&cs, 0, cs.len());
        assert_eq!(pieces(s, &[(a, b)])[0], s.trim(), "trim of {s:?}");
    }
}

#[test]
fn whitespace_classes_match_std() {
    for u in 0u32..0x3100 {
        if let Some(c) = char::from_u32(u) {
            assert_eq!(is_whitespace(c), c.is_whitespace(), "{u:#x}");
            assert_eq!(is_ascii_whitespace(c), c.is_ascii_whitespace(), "{u:#x}");
        }
    }
}

#[test]
fn span_equality() {
    let cs = chars_of("hello world");
    assert!(span_equals(&cs, 6, 11, &chars_of("world")));
    assert!(!span_equals(&cs, 6, 11, &chars_of("worle")));
    assert!(!span_equals(&cs, 6, 10, &chars_of("world")));
    assert!(span_equals(&cs, 3, 3, &chars_of("")));
}

use rusty_rich::highlighter::{Highlighter, NullHighlighter, RegexHighlighter, ReprHighlighter};
use rusty_rich::style::Style;
use rusty_rich::text::Text;

#[test]
fn test_null_highlighter() {
    let h = NullHighlighter;
    let t = Text::new("hello");
    let result = h.highlight(&t);
    assert_eq!(result.plain, "hello");
}

#[test]
fn test_null_highlighter_keeps_spans() {
    let h = NullHighlighter;
    let mut t = Text::new("ab");
    t.append_styled("cd", Style::new().bold(true));
    let result = h.highlight_text(&t);
    assert_eq!(result.plain, "abcd");
    assert_eq!(result.spans.len(), 1);
    assert_eq!(result.spans[0].start, 2);
    assert_eq!(result.spans[0].end, 4);
}

#[test]
fn test_repr_highlighter_numbers() {
    let h = ReprHighlighter::new();
    let result = h.highlight_str("num=42");
    assert!(!result.plain.is_empty());
}

#[test]
fn test_regex_add_rule_rejects_bad_pattern() {
    let mut h = RegexHighlighter::new();
    assert!(h.add_rule("(", Style::new()).is_err());
    assert_eq!(h.rule_count(), 0);
    assert!(h.add_rule("a+", Style::new().bold(true)).is_ok());
    assert_eq!(h.rule_count(), 1);
}

#[test]
fn test_regex_highlight_spans_by_character() {
    let mut h = RegexHighlighter::new();
    h.add_rule("b+", Style::new().bold(true)).unwrap();
    let t = h.highlight(&Text::new("éabbc"));
    assert_eq!(t.plain, "éabbc");
    assert_eq!(t.spans.len(), 1);
    assert_eq!((t.spans[0].start, t.spans[0].end), (2, 4));
}

#[test]
fn test_regex_highlight_keeps_every_rule() {
    let mut h = RegexHighlighter::new();
    h.add_rule("a", Style::new().bold(true)).unwrap();
    h.add_rule("c", Style::new().italic(true)).unwrap();
    let t = h.highlight(&Text::new("abc"));
    assert_eq!(t.plain, "abc");
    assert_eq!(t.spans.len(), 2);
    assert_eq!((t.spans[0].start, t.spans[0].end), (0, 1));
    assert_eq!((t.spans[1].start, t.spans[1].end), (2, 3));
}

#[test]
fn test_repr_highlighter_strings_and_urls() {
    let h = ReprHighlighter::new();
    let t = h.highlight_str("say 'hi' at https://x.org");
    assert_eq!(t.plain, "say 'hi' at https://x.org");
    assert_eq!(t.spans.len(), 2);
    assert_eq!((t.spans[0].start, t.spans[0].end), (12, 25));
    assert_eq!((t.spans[1].start, t.spans[1].end), (4, 8));
}

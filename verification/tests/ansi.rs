use rusty_rich::ansi::{apply_sgr, split_semi, AnsiDecoder};
use rusty_rich::style::Style;

#[test]
fn test_decode_bold() {
    let text = AnsiDecoder::decode("\x1b[1mBold Text\x1b[0m");
    assert!(text.plain.contains("Bold Text"));
    assert!(!text.spans.is_empty());
}

#[test]
fn test_decode_reset() {
    let text = AnsiDecoder::decode("\x1b[31mRed\x1b[0m Normal");
    assert!(text.plain.contains("Red"));
    assert!(text.plain.contains("Normal"));
}

#[test]
fn test_decode_plain_unchanged() {
    let text = AnsiDecoder::decode("no escapes");
    assert_eq!(text.plain, "no escapes");
    assert!(text.spans.is_empty());
}

#[test]
fn test_apply_sgr_bold_then_reset() {
    let s = apply_sgr(&Style::new(), "1");
    assert_eq!(s.attributes.bold, Some(true));
    let r = apply_sgr(&s, "0");
    assert!(r.is_null());
}

#[test]
fn test_split_semi() {
    assert_eq!(split_semi("1;31"), vec!["1".to_string(), "31".to_string()]);
}

#[test]
fn test_decode_unicode_digit_sequence_is_dropped() {
    let text = AnsiDecoder::decode("\x1b[\u{663}mX");
    assert_eq!(text.plain, "X");
    assert!(text.spans.is_empty());
}

#[test]
fn test_decode_spans_by_characters() {
    let text = AnsiDecoder::decode("é\x1b[1mbold\x1b[0m!");
    assert_eq!(text.plain, "ébold!");
    assert_eq!(text.spans.len(), 1);
    assert_eq!(text.spans[0].start, 1);
    assert_eq!(text.spans[0].end, 5);
}

#[test]
fn test_decode_unfinished_sequence_kept() {
    let text = AnsiDecoder::decode("a\x1b[1xb");
    assert_eq!(text.plain, "a\x1b[1xb");
}

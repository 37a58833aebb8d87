use rusty_rich::cells::{cell_len, chop_cells, get_character_cell_size, set_cell_size, split_text};

#[test]
fn test_cell_len_ascii() {
    assert_eq!(cell_len("hello"), 5);
}

#[test]
fn test_cell_len_cjk() {
    assert_eq!(cell_len("你好"), 4);
}

#[test]
fn test_cell_len_emoji() {
    assert_eq!(cell_len("🎉"), 2);
}

#[test]
fn test_set_cell_size_pad() {
    assert_eq!(set_cell_size("hi", 10), "hi        ");
}

#[test]
fn test_set_cell_size_crop() {
    assert_eq!(set_cell_size("hello world", 5), "hello");
}

#[test]
fn test_set_cell_size_exact() {
    assert_eq!(set_cell_size("hello", 5), "hello");
}

#[test]
fn test_chop_cells_basic() {
    let lines = chop_cells("hello world", 5);
    assert_eq!(lines, vec!["hello", " worl", "d"]);
}

#[test]
fn test_chop_cells_newline() {
    let lines = chop_cells("a\nb\nc", 10);
    assert_eq!(lines, vec!["a", "b", "c"]);
}

#[test]
fn test_split_text_middle() {
    let (left, right) = split_text("hello world", 5);
    assert_eq!(left, "hello");
    assert_eq!(right, " world");
}

#[test]
fn test_split_text_past_end() {
    let (left, right) = split_text("hi", 10);
    assert_eq!(left, "hi");
    assert_eq!(right, "");
}

#[test]
fn test_character_cell_sizes() {
    assert_eq!(get_character_cell_size('a'), 1);
    assert_eq!(get_character_cell_size('\x07'), 0);
    assert_eq!(get_character_cell_size('你'), 2);
}

#[test]
fn test_set_cell_size_crop_wide_char_boundary() {
    // The wide character would cross the limit: it is replaced by a space.
    assert_eq!(set_cell_size("a你b", 2), "a ");
}

#[test]
fn test_chop_cells_zero_width_and_empty() {
    assert_eq!(chop_cells("abc", 0), vec!["abc"]);
    assert_eq!(chop_cells("", 5), vec![""]);
}

#[test]
fn test_split_text_wide_straddle() {
    let (left, right) = split_text("你好", 1);
    assert_eq!(left, " ");
    assert_eq!(right, "你好");
}

#[test]
fn test_chop_cells_lines_fit() {
    let lines = rusty_rich::cells::chop_cells("abcdefg", 3);
    assert_eq!(lines, vec!["abc".to_string(), "def".to_string(), "g".to_string()]);
    for l in &lines {
        assert!(rusty_rich::cells::cell_len(l) <= 3);
    }
}

#[test]
fn test_chop_cells_joins_without_newlines() {
    let text = "hello world\nab";
    let lines = chop_cells(text, 5);
    assert!(!lines.is_empty());
    assert_eq!(lines.concat(), text.replace('\n', ""));
}

#[test]
fn test_split_text_width_and_join() {
    let (l, r) = split_text("hello world", 5);
    assert_eq!(cell_len(&l), 5);
    assert_eq!(format!("{}{}", l, r), "hello world");
    let (l2, r2) = split_text("hi", 10);
    assert_eq!((l2.as_str(), r2.as_str()), ("hi", ""));
}

#[test]
fn test_set_cell_size_exact_width() {
    assert_eq!(cell_len(&set_cell_size("hi", 10)), 10);
    assert_eq!(cell_len(&set_cell_size("hello world", 5)), 5);
    assert!(set_cell_size("hi", 10).starts_with("hi"));
}

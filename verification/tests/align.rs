use rusty_rich::align::AlignMethod;

#[test]
fn test_align_center() {
    let result = AlignMethod::Center.align_text("Hi", 10);
    assert_eq!(result.len(), 10);
    assert!(result.starts_with("    "));
}

#[test]
fn test_align_left_right() {
    assert_eq!(AlignMethod::Left.align_text("ab", 5), "ab   ");
    assert_eq!(AlignMethod::Right.align_text("ab", 5), "   ab");
}

#[test]
fn test_align_wider_text_unchanged() {
    assert_eq!(AlignMethod::Center.align_text("abcdef", 3), "abcdef");
}

#[test]
fn test_full_justify_by_cells() {
    let r = AlignMethod::Full.align_text("你 好", 8);
    assert_eq!(r, "你    好");
}

use rusty_rich::box_drawing::{
    box_ascii, box_ascii_double_head, box_rounded, box_square_double_head, get_safe_box, BoxStyle,
    ROUNDED, SIMPLE,
};

#[test]
fn test_rounded_box() {
    let b = box_rounded();
    assert_eq!(b.top_left, '╭');
    assert_eq!(b.bottom_right, '╯');
}

#[test]
fn test_box_from_str() {
    let b = BoxStyle::from_str(ROUNDED, false);
    assert_eq!(b, box_rounded());
}

#[test]
fn test_new_box_styles_parse() {
    let sq = box_square_double_head();
    assert_eq!(sq.top_left, '┌');
    assert_eq!(sq.head_row_horizontal, '═');
    assert_eq!(sq.head_row_left, '╞');

    let ac = box_ascii_double_head();
    assert_eq!(ac.head_row_left, '+');
    assert_eq!(ac.head_row_horizontal, '=');
    assert_eq!(ac.row_left, '+');
}

#[test]
fn test_box_round_trip() {
    let b = box_rounded();
    let text = b.to_string();
    assert_eq!(text, ROUNDED);
    assert_eq!(BoxStyle::from_str(&text, false), b);
}

#[test]
fn test_visible_edges_and_safe_box() {
    assert!(box_rounded().has_visible_edges());
    assert!(!BoxStyle::from_str(SIMPLE, false).has_visible_edges());
    assert_eq!(get_safe_box(&box_rounded(), true), box_ascii());
    assert_eq!(get_safe_box(&box_rounded(), false), box_rounded());
}

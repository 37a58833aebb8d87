use rusty_rich::emoji::{get_emoji_map, Emoji, NoEmoji};

#[test]
fn test_simple_replacement() {
    let result = Emoji::replace("Hello :smile:!");
    assert!(result.contains('\u{1F60A}'));
    assert!(!result.contains(":smile:"));
}

#[test]
fn test_multiple_replacements() {
    let result = Emoji::replace(":smile: and :heart:");
    assert!(result.contains('\u{1F60A}'));
    assert!(result.contains('\u{2764}'));
}

#[test]
fn test_no_replacement() {
    let result = Emoji::replace("Hello world");
    assert_eq!(result, "Hello world");
}

#[test]
fn test_has_emoji_true() {
    assert!(Emoji::has_emoji("Hello :smile:"));
}

#[test]
fn test_has_emoji_false() {
    assert!(!Emoji::has_emoji("Hello world"));
}

#[test]
fn test_no_emoji() {
    let result = NoEmoji::replace("Hello :smile:");
    assert_eq!(result, "Hello :smile:");
}

#[test]
fn test_rocket() {
    let result = Emoji::replace("Launch :rocket:");
    assert!(result.contains('\u{1F680}'));
}

#[test]
fn test_fire() {
    let result = Emoji::replace(":fire:");
    assert!(result.contains('\u{1F525}'));
}

#[test]
fn test_unknown_shortcode() {
    let result = Emoji::replace(":unknown_code:");
    assert!(result.contains(":unknown_code:"));
}

#[test]
fn test_exact_replacement_and_table() {
    assert_eq!(Emoji::replace("a :smile: b"), "a \u{1F60A} b");
    let map = get_emoji_map();
    assert_eq!(map[0], ("smile", "\u{1F60A}"));
    assert!(map.len() > 100);
}

#[test]
fn test_replace_left_to_right() {
    assert_eq!(Emoji::replace(":heart:smile:"), "\u{2764}\u{FE0F}smile:");
    assert_eq!(Emoji::replace(":nope:smile:"), ":nope:smile:");
    assert_eq!(Emoji::replace(": smile:"), ": smile:");
}

#[test]
fn test_full_table_shortcodes() {
    assert_eq!(Emoji::replace(":robot:"), "\u{1F916}");
    assert_eq!(Emoji::replace(":ghost: :moneybag:"), "\u{1F47B} \u{1F4B0}");
    assert_eq!(get_emoji_map().len(), 127);
}

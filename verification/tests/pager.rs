use rusty_rich::export::strip_ansi_escapes;
use rusty_rich::pager::{split_pager_command, Pager, PagerContext, SystemPager};

#[test]
fn test_system_pager_creation() {
    let pager = SystemPager::from_command("less");
    assert!(!pager.program.is_empty());
}

#[test]
fn test_pager_defaults() {
    let pager = Pager::new("less");
    assert!(pager.is_enabled());
    assert!(pager.is_color());
    assert!(!pager.command_str().is_empty());
}

#[test]
fn test_pager_builder() {
    let pager = Pager::new("less").enabled(false).command("more").color(false);
    assert!(!pager.is_enabled());
    assert!(!pager.is_color());
    assert_eq!(pager.command_str(), "more");
}

#[test]
fn test_pager_context_feed() {
    let pager = Pager::new("less").enabled(false);
    let mut ctx = PagerContext::new(pager);
    ctx.feed("Hello, ");
    ctx.feed("World!");
    assert_eq!(ctx.content(), "Hello, World!");
}

#[test]
fn test_pager_context_write_trait() {
    let pager = Pager::new("less").enabled(false);
    let mut ctx = PagerContext::new(pager);
    ctx.feed(&format!("Hello {}!", "World"));
    assert!(ctx.content().contains("Hello"));
    assert!(ctx.content().contains("World"));
}

#[test]
fn test_strip_ansi_via_export() {
    let input = "\x1b[31mhello\x1b[0m world";
    let result = strip_ansi_escapes(input);
    assert_eq!(result, "hello world");
}

#[test]
fn test_pager_context_take_content() {
    let pager = Pager::new("less").enabled(false);
    let mut ctx = PagerContext::new(pager);
    ctx.feed("test");
    assert_eq!(ctx.take_content(), Some("test".to_string()));
    assert!(ctx.content().is_empty());
    assert_eq!(ctx.take_content(), None);
}

#[test]
fn test_split_pager_command() {
    let (prog, args) = split_pager_command("less  -R -S");
    assert_eq!(prog, "less");
    assert_eq!(args, vec!["-R".to_string(), "-S".to_string()]);
}

#[test]
fn test_pager_display_text_strips_without_color() {
    let pager = Pager::new("less").color(false);
    assert_eq!(pager.display_text("\x1b[1mx\x1b[0m"), "x");
    let colored = Pager::new("less");
    assert_eq!(colored.display_text("\x1b[1mx\x1b[0m"), "\x1b[1mx\x1b[0m");
}

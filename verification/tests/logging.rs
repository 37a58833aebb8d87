use rusty_rich::logging::{level_style, style_level, LogLevel, RichHandler, DEFAULT_KEYWORDS};

#[test]
fn test_style_level() {
    let error_style = style_level(LogLevel::Error);
    assert_eq!(error_style.attributes.bold, Some(true));

    let info_style = style_level(LogLevel::Info);
    assert_ne!(info_style.attributes.bold, Some(true));
}

#[test]
fn test_default_keywords() {
    assert!(DEFAULT_KEYWORDS.contains(&"GET"));
    assert!(DEFAULT_KEYWORDS.contains(&"POST"));
    assert!(DEFAULT_KEYWORDS.contains(&"DELETE"));
}

#[test]
fn test_style_level_matches_level_style() {
    let levels = [LogLevel::Error, LogLevel::Warn, LogLevel::Info, LogLevel::Debug, LogLevel::Trace];
    for l in levels {
        let a = style_level(l);
        let b = level_style(l);
        assert_eq!(a.color, b.color);
        assert_eq!(a.attributes.bold, b.attributes.bold);
    }
    assert_ne!(style_level(LogLevel::Warn).color, style_level(LogLevel::Error).color);
}

#[test]
fn test_get_level_text() {
    let handler = RichHandler::new();
    let text = handler.get_level_text(LogLevel::Warn);
    let rendered = text.render();
    assert!(rendered.contains("WARN"));
    assert_eq!(text.plain, "WARN    ");
}

#[test]
fn test_render_message_basic() {
    let handler = RichHandler::new();
    let text = handler.render_message("Hello World");
    let rendered = text.render();
    assert!(rendered.contains("Hello World"));
}

#[test]
fn test_render_message_keywords() {
    let handler = RichHandler::new().keywords(vec!["ERROR".to_string()]);
    let text = handler.render_message("GET /index.html ERROR 500");
    let rendered = text.render();
    assert!(rendered.contains("GET"));
    assert!(rendered.contains("ERROR"));
    assert_eq!(text.spans.len(), 1);
    assert_eq!((text.spans[0].start, text.spans[0].end), (16, 21));
}

#[test]
fn test_render_basic() {
    let mut handler = RichHandler::new();
    let output = handler.render(LogLevel::Info, "Server started", Some("server"), Some("src/main.rs"), Some(42));
    assert!(output.contains("Server started"));
    assert!(output.contains("src/main.rs"));
}

#[test]
fn test_render_no_path() {
    let mut handler = RichHandler::new().show_path(false);
    let output = handler.render(LogLevel::Debug, "debug message", None, None, None);
    assert!(output.contains("debug message"));
}

#[test]
fn test_builder_pattern() {
    let handler = RichHandler::new()
        .show_time(false)
        .show_level(false)
        .show_path(false)
        .markup(true)
        .omit_repeated_times(false)
        .rich_tracebacks(true)
        .tracebacks_width(120)
        .tracebacks_code_width(100)
        .tracebacks_extra_lines(5)
        .tracebacks_show_locals(true)
        .tracebacks_max_frames(50)
        .locals_max_length(20)
        .locals_max_string(120);

    assert!(!handler.show_time);
    assert!(!handler.show_level);
    assert!(!handler.show_path);
    assert!(handler.markup);
    assert!(!handler.omit_repeated_times);
    assert!(handler.rich_tracebacks);
    assert_eq!(handler.tracebacks_width, Some(120));
    assert_eq!(handler.tracebacks_code_width, 100);
    assert_eq!(handler.tracebacks_extra_lines, 5);
    assert!(handler.tracebacks_show_locals);
    assert_eq!(handler.tracebacks_max_frames, 50);
    assert_eq!(handler.locals_max_length, 20);
    assert_eq!(handler.locals_max_string, 120);
}

#[test]
fn test_enable_link_path() {
    let mut handler = RichHandler::new().enable_link_path(true);
    assert!(handler.enable_link_path);
    let output = handler.render(LogLevel::Info, "test", Some("mod"), Some("src/main.rs"), Some(1));
    assert!(output.contains("\x1b]8;;"));
}

#[test]
fn test_keywords_builder() {
    let custom = vec!["CUSTOM".to_string(), "KEYWORD".to_string()];
    let handler = RichHandler::new().keywords(custom);
    assert_eq!(handler.keywords.as_ref().unwrap().len(), 2);
}

#[test]
fn test_render_at_repeated_time_blanked() {
    let mut handler = RichHandler::new().show_level(false).show_path(false);
    let first = handler.render_at("10:00:00", LogLevel::Info, "a", None, None, None);
    let second = handler.render_at("10:00:00", LogLevel::Info, "b", None, None, None);
    let third = handler.render_at("10:00:01", LogLevel::Info, "c", None, None, None);
    assert!(first.contains("[10:00:00]"));
    assert!(!second.contains("[10:00:00]"));
    assert!(second.contains("          "));
    assert!(third.contains("[10:00:01]"));
}

#[test]
fn test_render_at_plain_layout() {
    let mut handler = RichHandler::new().show_time(false).keywords(vec![]);
    let t = handler.render_at("00:00:00", LogLevel::Error, "boom", None, Some("a.rs"), Some(7));
    assert!(t.contains("ERROR"));
    assert!(t.contains("boom"));
    assert!(t.contains("a.rs:7"));
}

#[test]
fn test_emit_at_writes_line() {
    let mut handler = RichHandler::new().show_time(false).show_level(false).show_path(false).keywords(vec![]);
    handler.emit_at("00:00:00", LogLevel::Info, "hello", None, None, None);
    assert_eq!(handler.console.take_output(), "hello\n");
}

#[test]
fn test_emit_error_writes_chain() {
    let mut handler = RichHandler::new().show_time(false).show_level(false).show_path(false).keywords(vec![]);
    handler.emit_error(LogLevel::Error, "failed", None, None, None, "Outer", &vec!["inner".to_string()]);
    let out = handler.console.take_output();
    assert!(out.starts_with("failed\n"));
    assert!(out.contains("Outer"));
    assert!(out.contains("Caused by: "));
    assert!(out.contains("inner"));
}

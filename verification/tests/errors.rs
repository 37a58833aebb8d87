use rusty_rich::errors::{ConsoleError, LiveError, MarkupError, NotRenderableError, StyleError};

#[test]
fn test_console_error_display() {
    let err = ConsoleError::new("something went wrong");
    assert!(err.to_string().contains("something went wrong"));
}

#[test]
fn test_style_error_display() {
    let err = StyleError::Syntax("bad format".into());
    assert!(err.to_string().contains("bad format"));

    let err = StyleError::Missing("unknown_style".into());
    assert!(err.to_string().contains("unknown_style"));

    let err = StyleError::Stack("underflow".into());
    assert!(err.to_string().contains("underflow"));
}

#[test]
fn test_markup_error_display() {
    let err = MarkupError::UnmatchedOpen("bold".into());
    assert!(err.to_string().contains("[bold]"));

    let err = MarkupError::UnmatchedClose("red".into());
    assert!(err.to_string().contains("[/red]"));

    let err = MarkupError::MalformedTag("missing bracket".into());
    assert!(err.to_string().contains("missing bracket"));
}

#[test]
fn test_not_renderable_error() {
    let err = NotRenderableError::new("std::net::TcpStream");
    assert!(err.to_string().contains("std::net::TcpStream"));
    assert!(err.to_string().contains("not renderable"));
}

#[test]
fn test_live_error_display() {
    let err = LiveError::NoAltScreen;
    assert!(err.to_string().contains("Alternate screen"));

    let err = LiveError::NotStarted;
    assert!(err.to_string().contains("not been started"));

    let err = LiveError::AlreadyStarted;
    assert!(err.to_string().contains("already running"));

    let err = LiveError::Overflow("too many lines".into());
    assert!(err.to_string().contains("too many lines"));
}

#[test]
fn test_error_trait_impl() {
    let err = ConsoleError::new("test");
    let _ = err.to_string();

    let err = StyleError::Syntax("x".into());
    let _ = err.to_string();

    let err = MarkupError::MalformedTag("x".into());
    let _ = err.to_string();

    let err = NotRenderableError::new("T");
    let _ = err.to_string();

    let err = LiveError::NotStarted;
    let _ = err.to_string();
}

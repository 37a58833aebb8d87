use rusty_rich::color::ColorSystem;
use rusty_rich::console::{
    color_system_for, reconfigure, Capture, CaptureError, Console, ConsoleDimensions, ConsoleOptions, NewLine,
    NoChange, RenderHook, RenderHooks, RenderResult, Renderable,
};
use rusty_rich::segment::Segment;
use rusty_rich::style::Style;
use rusty_rich::pager::{Pager, PagerContext};
use std::io::IsTerminal;

/// A console for standard output, as a program starts with.
fn stdout_console() -> Console {
    Console::for_terminal(
        std::io::stdout().is_terminal(),
        ColorSystem::TrueColor,
        ConsoleDimensions::detect(),
    )
}

#[test]
fn test_render_result_from_text() {
    let r = RenderResult::from_text("hello");
    assert_eq!(r.lines.len(), 1);
    assert_eq!(r.lines[0][0].text, "hello");
}

#[test]
fn test_console_options_default() {
    let opts = ConsoleOptions::default();
    assert!(opts.markup);
}

#[test]
fn test_console_quiet_default() {
    let console = stdout_console();
    assert!(!console.quiet);
}

#[test]
fn test_console_quiet_setter() {
    let mut console = stdout_console();
    console.set_quiet(true);
    assert!(console.quiet);
}

#[test]
fn test_console_quiet_builder() {
    let console = stdout_console().quiet(true);
    assert!(console.quiet);
}

#[test]
fn test_console_quiet_suppresses_print() {
    let mut console = stdout_console();
    console.quiet = true;
    console.print(&[], " ", "\n");
    console.println(&"test");
    console.print_str("test");
    assert_eq!(console.take_output(), "");
}

#[test]
fn test_console_soft_wrap_default() {
    let console = stdout_console();
    assert!(!console.soft_wrap);
}

#[test]
fn test_console_soft_wrap_setter() {
    let mut console = stdout_console();
    console.set_soft_wrap(true);
    assert!(console.soft_wrap);
}

#[test]
fn test_console_soft_wrap_builder() {
    let console = stdout_console().soft_wrap(true);
    assert!(console.soft_wrap);
}

#[test]
fn test_console_is_terminal() {
    let console = stdout_console();
    let detected = console.is_terminal();
    assert_eq!(detected, std::io::stdout().is_terminal());
}

#[test]
fn test_console_set_size() {
    let mut console = stdout_console();
    console.set_size(120, 30);
    assert_eq!(console.width(), 120);
    assert_eq!(console.height(), 30);
    assert_eq!(console.options.max_width, 120);
    assert_eq!(console.options.max_height, 30);
}

#[test]
fn test_console_set_alt_screen() {
    let mut console = stdout_console();
    console.set_alt_screen(true);
    console.set_alt_screen(false);
    assert!(!console.is_alt_screen());
}

#[test]
fn test_console_on_broken_pipe() {
    let console = stdout_console();
    console.on_broken_pipe();
}

#[test]
fn test_console_input_normal() {
    let _console = stdout_console();
}

#[test]
fn test_console_debug() {
    let console = stdout_console();
    let debug = format!("{:?}", console);
    assert!(debug.contains("Console"));
}

#[test]
fn test_console_with_file_has_no_terminal() {
    let console = Console::with_file();
    assert!(!console.is_terminal());
}

#[test]
fn test_newline_renderable() {
    let nl = NewLine;
    let result = nl.render(&ConsoleOptions::default());
    let ansi = result.to_ansi();
    assert_eq!(ansi, "\n");
}

#[test]
fn test_nochange_renderable() {
    let nc = NoChange;
    let result = nc.render(&ConsoleOptions::default());
    assert!(result.lines.is_empty());
    assert!(result.items.is_empty());
}

#[test]
fn test_capture_begin_end() {
    let mut console = Console::with_file();
    console.begin_capture();
    console.write_str("captured text");
    let cap = console.end_capture().unwrap();
    assert_eq!(cap.get(), "captured text");
    assert_eq!(console.take_output(), "");
}

#[test]
fn test_capture_new_empty() {
    let console = stdout_console();
    let cap = Capture::new(&console);
    assert_eq!(cap.get(), "");
}

#[test]
fn test_end_capture_not_capturing() {
    let mut console = stdout_console();
    let result = console.end_capture();
    assert!(result.is_err());
    assert_eq!(result.unwrap_err(), CaptureError::NotCapturing);
}

#[test]
fn test_pager_enabled() {
    let pager = Pager::new("less");
    assert!(pager.is_enabled());
    let disabled = pager.enabled(false);
    assert!(!disabled.is_enabled());
}

#[test]
fn test_console_size() {
    let mut console = stdout_console();
    console.set_size(100, 40);
    let dims = console.size();
    assert_eq!(dims.width, 100);
    assert_eq!(dims.height, 40);
}

#[test]
fn test_console_is_alt_screen() {
    let mut console = stdout_console();
    assert!(!console.is_alt_screen());
    console.alt_screen = true;
    assert!(console.is_alt_screen());
}

#[test]
fn test_console_render_ansi() {
    let console = stdout_console();
    let ansi = console.render_ansi("test");
    assert!(ansi.contains("test") || ansi.contains("\x1b["));
}

#[test]
fn test_console_render_to_lines() {
    let console = stdout_console();
    let opts = ConsoleOptions::default();
    let lines = console.render_to_lines(&"hello", &opts);
    assert_eq!(lines.len(), 1);
    assert_eq!(lines[0][0].text, "hello");
}

#[test]
fn test_console_input_renderable() {}

#[test]
fn test_console_print_exception_noop() {
    let mut console = stdout_console();
    console.print_exception(None, 3);
}

#[test]
fn test_console_reconfigure() {
    let mut console = stdout_console();
    reconfigure(&mut console, Some(120), Some(40), None);
    assert_eq!(console.width(), 120);
    assert_eq!(console.height(), 40);
    reconfigure(&mut console, None, None, Some(ColorSystem::Standard));
    assert_eq!(console.color_system, ColorSystem::Standard);
    reconfigure(&mut console, None, None, None);
    assert_eq!(console.width(), 120);
}

#[test]
fn test_pager_context_write() {
    let pager = Pager::new("less").enabled(false);
    let mut ctx = PagerContext::new(pager);
    ctx.feed("test content");
    assert_eq!(ctx.content(), "test content");
}

#[test]
fn test_console_with_file_output_is_collected() {
    let mut console = Console::with_file();
    console.print_str("abc");
    let out = console.take_output();
    assert!(out.contains("abc"));
    assert_eq!(console.take_output(), "");
}

#[test]
fn test_console_for_terminal_narrower() {
    let console = Console::for_terminal(true, ColorSystem::TrueColor, ConsoleDimensions { width: 80, height: 24 });
    assert_eq!(console.options.max_width, 79);
    assert_eq!(console.options.max_height, 24);
}

#[test]
fn test_end_capture_twice_fails() {
    let mut console = Console::with_file();
    console.begin_capture();
    console.write_str("a");
    let cap = console.end_capture().unwrap();
    assert_eq!(cap.get(), "a");
    assert!(console.end_capture().is_err());
}

#[test]
fn test_color_system_for_environment() {
    assert_eq!(color_system_for(Some("truecolor"), None, false, false), ColorSystem::TrueColor);
    assert_eq!(color_system_for(Some("24bit"), Some("dumb"), true, false), ColorSystem::TrueColor);
    assert_eq!(color_system_for(None, Some("xterm-256color"), false, false), ColorSystem::EightBit);
    assert_eq!(color_system_for(None, Some("xterm-kitty"), true, false), ColorSystem::TrueColor);
    assert_eq!(color_system_for(None, Some("xterm"), true, true), ColorSystem::Standard);
    assert_eq!(color_system_for(None, None, false, true), ColorSystem::TrueColor);
    assert_eq!(color_system_for(Some("yes"), None, false, false), ColorSystem::Standard);
}

#[test]
fn test_set_window_title_sequence() {
    let mut console = Console::with_file();
    console.set_window_title("My App");
    assert_eq!(console.take_output(), "\x1b]0;My App\x07");
}

#[test]
fn test_pop_theme_undoes_push() {
    let mut console = Console::with_file();
    let before = console.theme.styles.len();
    console.push_theme(rusty_rich::theme::Theme::new());
    console.pop_theme();
    assert_eq!(console.theme.styles.len(), before);
    assert!(console.theme.inherit.is_none());
}

#[test]
fn test_export_html_holds_rendered_text() {
    let console = Console::with_file();
    let html = console.export_html(&"hello world");
    assert!(html.starts_with("<!DOCTYPE html>"));
    assert!(html.contains("hello world"));
}

#[test]
fn test_capture_gives_back_writes() {
    let mut console = Console::with_file();
    console.begin_capture();
    console.write_str("one ");
    console.write_str("two");
    let cap = console.end_capture().unwrap();
    assert_eq!(cap.get(), "one two");
    assert_eq!(console.end_capture().err(), Some(CaptureError::NotCapturing));
}

#[test]
fn test_print_json_str_valid_and_invalid() {
    let mut console = Console::with_file();
    console.print_json_str("{not json");
    assert_eq!(console.take_output(), "[invalid JSON]\n");
    console.print_json_str("{\"a\": [1, true, null]}");
    let out = console.take_output();
    assert!(out.contains("\"a\""));
    assert!(out.contains("true"));
    assert!(out.contains("null"));
    assert!(out.ends_with('\n'));
}

#[test]
fn test_capture_with_closure() {
    let mut console = Console::with_file();
    let output = console
        .capture(|c| {
            c.write_str("hello from capture");
        })
        .unwrap();
    assert_eq!(output, "hello from capture");
}

#[test]
fn test_capture_closure_that_ends_capture() {
    let mut console = Console::with_file();
    let r = console.capture(|c| {
        let _ = c.end_capture();
    });
    assert_eq!(r.unwrap_err(), CaptureError::NotCapturing);
}

#[test]
fn test_render_hook() {
    let hook = RenderHook::new(|lines: &[Vec<Segment>]| {
        let hooked: Vec<Vec<Segment>> = lines
            .iter()
            .map(|line| {
                let mut new_line = line.clone();
                new_line.push(Segment::styled("HOOKED", Style::new().bold(true)));
                new_line
            })
            .collect();
        hooked
    });
    let lines = vec![vec![Segment::new("test")]];
    let result = hook.apply(&lines);
    assert_eq!(result.len(), 1);
    assert_eq!(result[0].len(), 2);
    assert_eq!(result[0][1].text, "HOOKED");
}

#[test]
fn test_render_hooks_push_pop() {
    let mut hooks = RenderHooks::new();
    let hook = RenderHook::new(|lines: &[Vec<Segment>]| lines.to_vec());
    hooks.push(hook);
    assert_eq!(hooks.len(), 1);
    let popped = hooks.pop();
    assert!(popped.is_some());
    assert!(hooks.is_empty());
}

#[test]
fn test_render_to_lines_applies_hooks_in_order() {
    let mut console = Console::with_file();
    let options = console.options.clone();
    let plain = console.render_to_lines(&"hello", &options);
    assert_eq!(plain.len(), 1);
    assert_eq!(plain[0].len(), 1);
    assert_eq!(plain[0][0].text, "hello");
    console.push_render_hook(RenderHook::new(|lines: &[Vec<Segment>]| {
        let mut out = lines.to_vec();
        out.push(vec![Segment::new("first")]);
        out
    }));
    console.push_render_hook(RenderHook::new(|lines: &[Vec<Segment>]| {
        let mut out = lines.to_vec();
        out.push(vec![Segment::new("second")]);
        out
    }));
    let lines = console.render_to_lines(&"hello", &options);
    assert_eq!(lines.len(), 3);
    assert_eq!(lines[0][0].text, "hello");
    assert_eq!(lines[1][0].text, "first");
    assert_eq!(lines[2][0].text, "second");
}

#[test]
fn test_console_render_hooks_push_pop() {
    let mut console = Console::with_file();
    let hook = RenderHook::new(|lines: &[Vec<Segment>]| lines.to_vec());
    console.push_render_hook(hook);
    assert_eq!(console.render_hooks.len(), 1);
    let popped = console.pop_render_hook();
    assert!(popped.is_some());
    assert!(console.render_hooks.is_empty());
}

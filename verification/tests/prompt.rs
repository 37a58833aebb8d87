use rusty_rich::prompt::{
    apply_raw_style, apply_style, parse_i64, Confirm, IntPrompt, Prompt, PromptBase, PromptError, PromptStep,
    Select,
};
use rusty_rich::style::Style;
use std::io;

#[test]
fn test_make_prompt_no_choices() {
    let pb = PromptBase::new("Enter name");
    let result = pb.make_prompt();
    assert!(result.contains("Enter name"));
    assert!(result.ends_with(": "));
}

#[test]
fn test_make_prompt_with_choices() {
    let pb = PromptBase::new("Choose").choices(vec!["a".into(), "b".into()]);
    let result = pb.make_prompt();
    assert!(result.contains("Choose"));
    assert!(result.contains("["));
    assert!(result.contains("a/b"));
    assert!(result.contains("]"));
}

#[test]
fn test_render_default() {
    let pb = PromptBase::new("test");
    let rendered = pb.render_default("hello");
    assert!(rendered.contains("hello"));
    let pb_hidden = PromptBase::new("test").show_default(false);
    let rendered_hidden = pb_hidden.render_default("hello");
    assert_eq!(rendered_hidden, "");
}

#[test]
fn test_check_choice_no_choices() {
    let pb = PromptBase::new("test");
    assert!(pb.check_choice("anything"));
}

#[test]
fn test_check_choice_case_insensitive() {
    let pb = PromptBase::new("test").choices(vec!["yes".into(), "no".into()]).case_sensitive(false);
    assert!(pb.check_choice("YES"));
    assert!(pb.check_choice("yes"));
    assert!(pb.check_choice("No"));
    assert!(!pb.check_choice("maybe"));
}

#[test]
fn test_check_choice_case_sensitive() {
    let pb = PromptBase::new("test").choices(vec!["Yes".into(), "No".into()]).case_sensitive(true);
    assert!(pb.check_choice("Yes"));
    assert!(!pb.check_choice("yes"));
}

#[test]
fn test_prompt_error_display() {
    let err = PromptError::InvalidResponse("bad input".into());
    assert_eq!(err.to_string(), "bad input");
    let err = PromptError::Cancelled;
    assert_eq!(err.to_string(), "cancelled");
    let io_err = io::Error::new(io::ErrorKind::Other, "oh no");
    let err = PromptError::IOError(io_err);
    let msg = err.to_string();
    assert!(msg.contains("I/O error"));
}

#[test]
fn test_prompt_error_source() {
    let err = PromptError::InvalidResponse("bad".into());
    assert!(err.source().is_none());
    let io_err = io::Error::new(io::ErrorKind::NotFound, "not found");
    let err = PromptError::IOError(io_err);
    assert!(err.source().is_some());
}

#[test]
fn test_from_io_error() {
    let io_err = io::Error::new(io::ErrorKind::Other, "oh no");
    let err: PromptError = io_err.into();
    match err {
        PromptError::IOError(_) => {}
        _ => panic!("expected IOError"),
    }
}

#[test]
fn test_confirm_prompt_text_default_true() {
    let c = Confirm::new("Continue?", true);
    let prompt = c.make_confirm_prompt();
    assert!(prompt.contains("Continue?"));
    assert!(prompt.contains("[Y/n]"));
}

#[test]
fn test_confirm_prompt_text_default_false() {
    let c = Confirm::new("Continue?", false);
    let prompt = c.make_confirm_prompt();
    assert!(prompt.contains("Continue?"));
    assert!(prompt.contains("[y/N]"));
}

#[test]
fn test_select_render() {
    let s: Select<&str> = Select::new("Pick").choice("Option A", "a").choice("Option B", "b");
    let rendered = s.render();
    assert!(rendered.contains("Pick"));
    assert!(rendered.contains("1) Option A"));
    assert!(rendered.contains("2) Option B"));
    assert!(rendered.contains("Enter number [1-2]"));
}

#[test]
fn test_select_no_choices_error() {
    let s: Select<String> = Select::new("empty");
    let result = s.check_ready();
    match result {
        Err(PromptError::InvalidResponse(msg)) => {
            assert!(msg.contains("no choices"));
        }
        _ => panic!("expected InvalidResponse for no choices"),
    }
}

#[test]
fn test_prompt_builder() {
    let p = Prompt::new("Enter value").password(false).show_choices(true);
    let rendered = p.render();
    assert!(rendered.contains("Enter value"));
}

#[test]
fn test_prompt_render_default() {
    let pb = PromptBase::new("Name").show_default(true);
    assert!(pb.render_default("Alice").contains("Alice"));
}

#[test]
fn test_apply_style_plain() {
    let result = apply_style("hello", "nonexistent.style");
    assert_eq!(result, "hello");
}

#[test]
fn test_apply_style_with_theme() {
    let result = apply_style("hello", "prompt");
    assert!(result.contains("hello"));
}

#[test]
fn test_apply_raw_style_empty() {
    let s = Style::new();
    let result = apply_raw_style("test", &s);
    assert_eq!(result, "test");
}

#[test]
fn test_apply_raw_style_wraps_style_sequence() {
    let s = Style::new().bold(true);
    assert_eq!(apply_raw_style("x", &s), "\x1b[\x1b[1mmx\x1b[0m");
}

#[test]
fn test_parse_i64() {
    assert_eq!(parse_i64("42"), Some(42));
    assert_eq!(parse_i64("-7"), Some(-7));
    assert_eq!(parse_i64("+3"), Some(3));
    assert_eq!(parse_i64("x"), None);
    assert_eq!(parse_i64(""), None);
    assert_eq!(parse_i64("9223372036854775807"), Some(i64::MAX));
    assert_eq!(parse_i64("9223372036854775808"), None);
    assert_eq!(parse_i64("-9223372036854775808"), Some(i64::MIN));
}

#[test]
fn test_confirm_judge() {
    let c = Confirm::new("Go?", true);
    assert!(matches!(c.judge("y"), PromptStep::Done(true)));
    assert!(matches!(c.judge("NO"), PromptStep::Done(false)));
    assert!(matches!(c.judge(""), PromptStep::Done(true)));
    assert!(matches!(c.judge("maybe"), PromptStep::Retry(_)));
}

#[test]
fn test_int_prompt_judge() {
    let p = IntPrompt::new("n");
    assert!(matches!(p.judge("12"), PromptStep::Done(12)));
    assert!(matches!(p.judge("twelve"), PromptStep::Retry(_)));
}

#[test]
fn test_select_judge() {
    let s: Select<&str> = Select::new("Pick").choice("A", "a").choice("B", "b");
    assert!(matches!(s.judge(" 2 "), PromptStep::Done(2)));
    assert!(matches!(s.judge("3"), PromptStep::Retry(_)));
    assert!(matches!(s.judge("0"), PromptStep::Retry(_)));
}

#[test]
fn test_prompt_judge_choices() {
    let p = Prompt::new("c").choices(vec!["red".into(), "blue".into()]);
    assert_eq!(p.judge("red").unwrap(), "red");
    assert!(p.judge("green").is_err());
}

use rusty_rich::console::{ConsoleOptions, Renderable};
use rusty_rich::live_render::{LiveRender, VerticalOverflow};
use rusty_rich::segment::Segment;
use rusty_rich::style::Style;
use rusty_rich::text::Text;

#[test]
fn test_vertical_overflow_enum() {
    assert_eq!(VerticalOverflow::Crop, VerticalOverflow::Crop);
    assert_ne!(VerticalOverflow::Crop, VerticalOverflow::Ellipsis);
    assert_ne!(VerticalOverflow::Ellipsis, VerticalOverflow::Visible);
}

#[test]
fn test_live_render_new() {
    let lr = LiveRender::new(Text::new("hello"));
    assert_eq!(lr.last_render_height(), 0);
    assert!(lr.last_shape().is_none());
    assert_eq!(lr.vertical_overflow, VerticalOverflow::Ellipsis);
}

#[test]
fn test_live_render_builder() {
    let lr = LiveRender::new(Text::new("test"))
        .style(Style::new().bold(true))
        .vertical_overflow(VerticalOverflow::Crop);
    assert_eq!(lr.vertical_overflow, VerticalOverflow::Crop);
}

#[test]
fn test_set_renderable() {
    let mut lr = LiveRender::new(Text::new("first"));
    lr.set_renderable(Text::new("second"));
    let opts = ConsoleOptions::default();
    let result = lr.render(&opts);
    let ansi = result.to_ansi();
    assert!(ansi.contains("second"));
}

#[test]
fn test_position_cursor_no_render() {
    let lr = LiveRender::new(Text::new("unrendered"));
    let ctrl = lr.position_cursor();
    assert!(ctrl.to_ansi().is_empty());
}

#[test]
fn test_restore_cursor_no_render() {
    let lr = LiveRender::new(Text::new("unrendered"));
    let ctrl = lr.restore_cursor();
    assert!(ctrl.to_ansi().is_empty());
}

#[test]
fn test_vertical_overflow_crop() {
    let lr = LiveRender::new(Text::new("line1\nline2\nline3\nline4\nline5"))
        .vertical_overflow(VerticalOverflow::Crop);
    let mut opts = ConsoleOptions::default();
    opts.max_height = 3;
    let result = lr.render(&opts);
    let line_count = result
        .lines
        .iter()
        .filter(|l| l.iter().any(|s| !s.text.trim().is_empty()))
        .count();
    assert!(line_count <= 3);
}

#[test]
fn test_vertical_overflow_visible() {
    let lr = LiveRender::new(Text::new("line1\nline2\nline3\nline4\nline5\nline6"))
        .vertical_overflow(VerticalOverflow::Visible);
    let mut opts = ConsoleOptions::default();
    opts.max_height = 3;
    let result = lr.render(&opts);
    let line_count = result
        .lines
        .iter()
        .filter(|l| l.iter().any(|s| !s.text.trim().is_empty()))
        .count();
    assert!(line_count > 3);
}

#[test]
fn test_position_cursor_after_shape() {
    let mut lr = LiveRender::new(Text::new("x"));
    lr.set_shape(Some((10, 3)));
    assert_eq!(lr.last_render_height(), 3);
    let ansi = lr.position_cursor().to_ansi();
    assert!(!ansi.is_empty());
    assert!(ansi.starts_with('\r'));
}

#[test]
fn test_space_lines_adds_newline_lines() {
    let lines = vec![vec![Segment::new("a")], vec![Segment::new("b")]];
    let out = LiveRender::space_lines(lines, 3);
    assert_eq!(out.len(), 4);
    assert_eq!(out[0][0].text, "a");
    assert_eq!(out[1][0].text, "\n");
    assert_eq!(out[2][0].text, "b");
    assert_eq!(out[3][0].text, "\n");
}

#[test]
fn test_crop_keeps_first_lines_and_ellipsis() {
    let lr = LiveRender::new(Text::new("x"));
    let lines = vec![
        vec![Segment::new("1")],
        vec![Segment::new("2")],
        vec![Segment::new("3")],
    ];
    let out = lr.crop(lines, 2, LiveRender::ellipsis_line());
    assert_eq!(out.len(), 2);
    assert_eq!(out[0][0].text, "1");
    assert_eq!(out[1][0].text, "...");
}

use rusty_rich::console::{ConsoleOptions, Renderable};
use rusty_rich::containers::{restyle, Lines, Renderables};
use rusty_rich::segment::Segment;
use rusty_rich::style::Style;

#[test]
fn test_lines_empty() {
    let lines = Lines::new();
    let opts = ConsoleOptions::default();
    let result = lines.render(&opts);
    assert!(result.lines.is_empty());
}

#[test]
fn test_lines_with_content() {
    let mut lines = Lines::new();
    lines.add("Hello");
    lines.add("World");
    let opts = ConsoleOptions::default();
    let result = lines.render(&opts);
    assert_eq!(result.lines.len(), 2);
}

#[test]
fn test_lines_highlight() {
    let mut lines = Lines::new().highlight(1);
    lines.add("First");
    lines.add("Highlighted");
    lines.add("Third");
    let opts = ConsoleOptions::default();
    let result = lines.render(&opts);
    assert_eq!(result.lines.len(), 3);
}

#[test]
fn test_renderables_empty() {
    let items = Renderables::new();
    let opts = ConsoleOptions::default();
    let result = items.render(&opts);
    assert!(result.lines.is_empty());
}

#[test]
fn test_renderables_with_content() {
    let mut items = Renderables::new();
    items.add("A");
    items.add("B");
    items.add("C");
    let opts = ConsoleOptions::default();
    let result = items.render(&opts);
    assert_eq!(result.lines.len(), 3);
}

#[test]
fn test_restyle_highlighted_sets_style() {
    let lines = vec![vec![Segment::new("x")]];
    let style = Style::new().italic(true);
    let out = restyle(lines, true, &style);
    assert_eq!(out.len(), 1);
    assert_eq!(out[0][0].text, "x");
    let st = out[0][0].style.as_ref().unwrap();
    assert_eq!(st.attributes.bold, Some(true));
    assert_eq!(st.attributes.italic, Some(true));
}

#[test]
fn test_restyle_not_highlighted_takes_container_style() {
    let lines = vec![vec![Segment::new("x")]];
    let style = Style::new().bold(true);
    let out = restyle(lines, false, &style);
    assert_eq!(out[0][0].style.as_ref().unwrap().attributes.bold, Some(true));
    let plain = restyle(vec![vec![Segment::new("y")]], false, &Style::new());
    assert!(plain[0][0].style.is_none());
}

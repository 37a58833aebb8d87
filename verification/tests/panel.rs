use rusty_rich::console::{ConsoleOptions, Renderable};
use rusty_rich::panel::Panel;

#[test]
fn test_panel_creation() {
    let panel = Panel::new("Hello");
    assert!(panel.title.is_none());
}

#[test]
fn test_panel_with_title() {
    let panel = Panel::new("Content").title("My Title");
    let opts = ConsoleOptions::default();
    let result = panel.render(&opts);
    let ansi = result.to_ansi();
    assert!(ansi.contains("My Title"));
}

#[test]
fn test_panel_border_lines() {
    let panel = Panel::new("Hi");
    let mut opts = ConsoleOptions::default();
    opts.max_width = 10;
    let result = panel.render(&opts);
    let lines: Vec<String> = result
        .lines
        .iter()
        .map(|l| l.iter().map(|s| s.text.clone()).collect::<String>())
        .collect();
    assert_eq!(lines.len(), 3);
    assert!(lines[0].starts_with("╭────────╮"));
    assert!(lines[1].starts_with("│ Hi     │"));
    assert!(lines[2].starts_with("╰────────╯"));
}

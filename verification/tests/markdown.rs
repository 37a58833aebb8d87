use rusty_rich::console::{ConsoleOptions, Renderable};
use rusty_rich::markdown::render_markdown;

#[test]
fn test_markdown_heading() {
    let md = render_markdown("# Hello\n\nWorld");
    let opts = ConsoleOptions::default();
    let result = md.render(&opts);
    let ansi = result.to_ansi();
    assert!(ansi.contains("Hello"));
}

#[test]
fn test_markdown_paragraph_and_list() {
    let md = render_markdown("Some *text*\n\n- one\n- two\n");
    let opts = ConsoleOptions::default();
    let ansi = md.render(&opts).to_ansi();
    assert!(ansi.contains("text"));
    assert!(ansi.contains("one"));
    assert!(ansi.contains("two"));
}

#[test]
fn test_markdown_code_block() {
    let md = render_markdown("```\nlet x = 1;\n```\n");
    let opts = ConsoleOptions::default();
    let ansi = md.render(&opts).to_ansi();
    assert!(ansi.contains("let x = 1;"));
}

#[test]
fn test_markdown_table_keeps_alignment() {
    let md = render_markdown("| a | b |\n|:--|--:|\n| x | yyy |\n| long | z |\n| y | zz |\n");
    let opts = ConsoleOptions::default();
    let ansi = md.render(&opts).to_ansi();
    let long_line = ansi.lines().find(|l| l.contains("long")).unwrap();
    assert!(long_line.contains("  z │"));
    assert!(!long_line.contains("│ z "));
    let y_line = ansi.lines().find(|l| l.contains("zz")).unwrap();
    assert!(y_line.contains("│ y  "));
    assert!(y_line.contains(" zz │"));
}

#[test]
fn test_markdown_quote_and_emphasis() {
    let md = render_markdown("> quoted *word*\n");
    let opts = ConsoleOptions::default();
    let ansi = md.render(&opts).to_ansi();
    assert!(ansi.contains("▌ "));
    assert!(ansi.contains("quoted"));
    assert!(ansi.contains("word"));
}

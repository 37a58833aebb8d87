use rusty_rich::columns::Columns;
use rusty_rich::console::{ConsoleOptions, Renderable};

fn line_text(r: &rusty_rich::console::RenderResult, k: usize) -> String {
    r.lines[k].iter().map(|s| s.text.as_str()).collect()
}

#[test]
fn test_column_first_fills_down_columns() {
    let mut c = Columns::new().column_first(true).width(9);
    c.add("a");
    c.add("b");
    c.add("c");
    c.add("d");
    let opts = ConsoleOptions { max_width: 30, ..ConsoleOptions::default() };
    let r = c.render(&opts);
    assert_eq!(r.lines.len(), 2);
    let t0 = line_text(&r, 0);
    let t1 = line_text(&r, 1);
    assert!(t0.contains('a') && t0.contains('c') && !t0.contains('b'));
    assert!(t1.contains('b') && t1.contains('d'));
}

#[test]
fn test_row_first_fills_across_rows() {
    let mut c = Columns::new().width(9);
    c.add("a");
    c.add("b");
    c.add("c");
    c.add("d");
    let opts = ConsoleOptions { max_width: 30, ..ConsoleOptions::default() };
    let r = c.render(&opts);
    assert_eq!(r.lines.len(), 2);
    let t0 = line_text(&r, 0);
    let t1 = line_text(&r, 1);
    assert!(t0.contains('a') && t0.contains('b') && t0.contains('c'));
    assert!(t1.contains('d') && !t1.contains('a'));
}

use rusty_rich::console::{ConsoleOptions, Renderable};
use rusty_rich::padding::{Padding, PaddingDimensions};

#[test]
fn test_padding() {
    let p = Padding::new("Hello").pad_all(2);
    let opts = ConsoleOptions::default();
    let result = p.render(&opts);
    let ansi = result.to_ansi();
    assert!(ansi.contains("Hello"));
}

#[test]
fn test_padding_lines() {
    let p = Padding::new("Hi").pad(1, 2, 1, 3);
    let mut opts = ConsoleOptions::default();
    opts.max_width = 10;
    let result = p.render(&opts);
    assert_eq!(result.lines.len(), 3);
    let text = |i: usize| -> String { result.lines[i].iter().map(|s| s.text.clone()).collect() };
    assert_eq!(text(0), "          \n");
    assert_eq!(text(1), "   Hi  \n");
    assert_eq!(text(2), "          \n");
}

#[test]
fn test_padding_dimensions() {
    let d = PaddingDimensions::symmetric(1, 2);
    assert_eq!((d.top, d.right, d.bottom, d.left), (1, 2, 1, 2));
    let a = PaddingDimensions::all(3);
    assert_eq!((a.top, a.right, a.bottom, a.left), (3, 3, 3, 3));
}

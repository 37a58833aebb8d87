use rusty_rich::console::{ConsoleOptions, OverflowMethod, Renderable};
use rusty_rich::constrain::Constrain;
use rusty_rich::measure::Measurement;

#[test]
fn test_constrain_defaults() {
    let c = Constrain::new("Hello, World!");
    let opts = ConsoleOptions::default();
    let result = c.render(&opts);
    let ansi = result.to_ansi();
    assert!(ansi.contains("Hello, World!"));
}

#[test]
fn test_constrain_width() {
    let text = "Short";
    let c = Constrain::new(text.to_string()).width(10);
    let opts = ConsoleOptions::default();
    let result = c.render(&opts);
    let ansi = result.to_ansi();
    assert!(ansi.contains("Short"));
}

#[test]
fn test_constrain_render_respects_width() {
    let c = Constrain::new("Hello!").width(3);
    let opts = ConsoleOptions::default();
    let result = c.render(&opts);
    let _ = result.to_ansi();
    assert_eq!(c.inner_options(&opts).max_width, 3);
}

#[test]
fn test_constrain_overflow_method() {
    let c = Constrain::new("Hello").width(3).overflow(OverflowMethod::Crop);
    assert!(matches!(c.overflow, OverflowMethod::Crop));
}

#[test]
fn test_constrain_no_width() {
    let c = Constrain::new("Hello");
    assert!(c.width.is_none());
}

#[test]
fn test_constrain_builder_chain() {
    let c = Constrain::new("text").width(20).overflow(OverflowMethod::Ellipsis);
    assert_eq!(c.width, Some(20));
    assert!(matches!(c.overflow, OverflowMethod::Ellipsis));
}

#[test]
fn test_constrain_inner_options_takes_width() {
    let c = Constrain::new("text").width(200);
    let opts = ConsoleOptions::default();
    assert_eq!(c.inner_options(&opts).max_width, 200);
    assert_eq!(Constrain::new("t").inner_options(&opts).max_width, opts.max_width);
}

#[test]
fn test_constrain_measure_caps_at_width() {
    let c = Constrain::new("text").width(5);
    let m = c.constrain_measure(Measurement::new(3, 10));
    assert_eq!(m.minimum, 3);
    assert_eq!(m.maximum, 5);
}

use rusty_rich::markup::{escape, parse_tag, render, Tag};

#[test]
fn test_escape() {
    assert_eq!(escape("[bold]"), "[[bold]");
}

#[test]
fn test_render_bold() {
    let t = render("[bold]Hello[/bold]");
    assert_eq!(t.plain, "Hello");
    assert!(!t.spans.is_empty());
}

#[test]
fn test_render_literal_bracket() {
    let t = render("[[hello]]");
    assert!(t.plain.contains("hello"));
}

#[test]
fn test_render_color() {
    let t = render("[red]red text[/red]");
    assert_eq!(t.plain, "red text");
    assert!(!t.spans.is_empty());
}

#[test]
fn test_parse_tag() {
    let tag = parse_tag("bold");
    assert_eq!(tag.name, "bold");

    let tag = parse_tag("color=red");
    assert_eq!(tag.name, "color");
    assert_eq!(tag.parameters, Some("red".into()));

    let tag = parse_tag("/bold");
    assert!(tag.is_closing());
}

#[test]
fn test_render_escape_round_trip() {
    let s = "a [b] c";
    let t = render(&escape(s));
    assert_eq!(t.plain, s);
    assert!(t.spans.is_empty());
}

#[test]
fn test_tag_markup() {
    assert_eq!(Tag::with_params("link", "x").markup(), "[link=x]");
    assert_eq!(Tag::new("bold").markup(), "[bold]");
    assert_eq!(Tag::new("/bold").closing_name(), "bold");
}

#[test]
fn test_render_span_positions() {
    let t = render("ab[bold]cd[/bold]ef");
    assert_eq!(t.plain, "abcdef");
    assert_eq!(t.spans.len(), 1);
    assert_eq!(t.spans[0].start, 2);
    assert_eq!(t.spans[0].end, 4);
}

#[test]
fn test_escaped_markup_renders_back() {
    for s in ["[bold]x[/bold]", "a [[b] c", "plain", "[", "]["] {
        assert_eq!(render(&escape(s)).plain, s);
    }
}

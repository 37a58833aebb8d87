use rusty_rich::color::Color;
use rusty_rich::export::{
    escape_html, escape_xml, export_svg, export_text, export_theme_svg, rgb_for_8bit,
    segments_to_html, segments_to_svg, strip_ansi_escapes, ExportSvgOptions, ExportTextOptions,
    ExportTheme,
};
use rusty_rich::segment::Segment;
use rusty_rich::style::Style;

#[test]
fn test_escape_html_basic() {
    assert_eq!(escape_html("<hello>"), "&lt;hello&gt;");
    assert_eq!(escape_html("\"a\" & 'b'"), "&quot;a&quot; &amp; 'b'");
}

#[test]
fn test_strip_ansi_escapes() {
    let input = "\x1b[31mred\x1b[0m normal";
    assert_eq!(strip_ansi_escapes(input), "red normal");
}

#[test]
fn test_strip_ansi_complex() {
    let input = "\x1b[1;31mBold Red\x1b[0m \x1b[4munderlined\x1b[0m";
    assert_eq!(strip_ansi_escapes(input), "Bold Red underlined");
}

#[test]
fn test_strip_ansi_no_escapes() {
    assert_eq!(strip_ansi_escapes("plain text"), "plain text");
}

#[test]
fn test_export_svg_basic() {
    let opts = ExportSvgOptions {
        code: "SVG text".into(),
        ..Default::default()
    };
    let svg = export_svg(&opts);
    assert!(svg.contains("<svg"));
    assert!(svg.contains("SVG text"));
    assert!(svg.contains("rich-svg"));
}

#[test]
fn test_export_svg_theme() {
    let opts = ExportSvgOptions {
        code: "test".into(),
        theme: export_theme_svg(),
        ..Default::default()
    };
    let svg = export_svg(&opts);
    assert!(svg.contains("rgb(255,255,255)"));
}

#[test]
fn test_export_text_strip() {
    let opts = ExportTextOptions {
        text: "\x1b[1;32mGreen Bold\x1b[0m".into(),
        strip_ansi: true,
    };
    assert_eq!(export_text(&opts), "Green Bold");
}

#[test]
fn test_export_text_keep() {
    let ansi = "\x1b[31mred\x1b[0m";
    let opts = ExportTextOptions {
        text: ansi.into(),
        strip_ansi: false,
    };
    assert_eq!(export_text(&opts), ansi);
}

#[test]
fn test_rgb_for_8bit_standard() {
    assert_eq!(rgb_for_8bit(0), (0, 0, 0));
    assert_eq!(rgb_for_8bit(1), (128, 0, 0));
    assert_eq!(rgb_for_8bit(15), (255, 255, 255));
}

#[test]
fn test_rgb_for_8bit_cube() {
    assert_eq!(rgb_for_8bit(16), (0, 0, 0));
    let idx = 16 + 1 * 36 + 2 * 6 + 3;
    assert_eq!(rgb_for_8bit(idx), (51, 102, 153));
}

#[test]
fn test_rgb_for_8bit_greyscale() {
    assert_eq!(rgb_for_8bit(232), (8, 8, 8));
    assert_eq!(rgb_for_8bit(255), (238, 238, 238));
}

#[test]
fn test_segments_to_html_styled() {
    let seg = Segment::styled(
        "hello",
        Style::new().color(Color::parse("red").unwrap()).bold(true),
    );
    let html = segments_to_html(&[seg], &ExportTheme::default());
    assert!(html.contains("color:rgb(128,0,0)"));
    assert!(html.contains("font-weight:bold"));
    assert!(html.contains("hello"));
}

#[test]
fn test_segments_to_html_plain() {
    let seg = Segment::new("plain");
    let html = segments_to_html(&[seg], &ExportTheme::default());
    assert!(html.contains("plain"));
    assert!(html.contains("color:rgb(255,255,255)"));
}

#[test]
fn test_export_theme_defaults() {
    let theme = ExportTheme::default();
    assert_eq!(theme.background, (0, 0, 0));
    assert_eq!(theme.foreground, (255, 255, 255));
}

#[test]
fn test_segments_to_svg_styled() {
    let seg = Segment::styled(
        "hello",
        Style::new().color(Color::parse("red").unwrap()).bold(true),
    );
    let svg = segments_to_svg(&[seg], &ExportTheme::default());
    assert!(svg.contains("fill:rgb(128,0,0)"));
    assert!(svg.contains("font-weight:bold"));
    assert!(svg.contains("hello"));
    assert!(svg.contains("<tspan"));
}

#[test]
fn test_segments_to_svg_plain() {
    let seg = Segment::new("plain");
    let svg = segments_to_svg(&[seg], &ExportTheme::default());
    assert!(svg.contains("plain"));
    assert!(svg.contains("fill:rgb(255,255,255)"));
}

#[test]
fn test_escape_xml_and_html_exact() {
    assert_eq!(escape_xml("a<'b'>&\""), "a&lt;&apos;b&apos;&gt;&amp;&quot;");
    assert_eq!(escape_html("&&"), "&amp;&amp;");
}

#[test]
fn test_strip_osc_and_lone_escape() {
    assert_eq!(strip_ansi_escapes("\x1b]0;title\x07text"), "text");
    assert_eq!(strip_ansi_escapes("a\x1bPdata\x1b\\b"), "ab");
    assert_eq!(strip_ansi_escapes("x\x1bzy"), "xzy");
}

#[test]
fn test_segment_html_exact_and_link() {
    let seg = Segment::new("a<b");
    assert_eq!(
        segments_to_html(&[seg], &ExportTheme::default()),
        "<span style=\"color:rgb(255,255,255)\">a&lt;b</span>"
    );
    let linked = Segment::styled("x", Style::new().link("http://e.com?a&b"));
    assert_eq!(
        segments_to_html(&[linked], &ExportTheme::default()),
        "<a href=\"http://e.com?a&amp;b\" style=\"color:rgb(255,255,255)\">x</a>"
    );
}

#[test]
fn test_export_svg_baseline_and_size() {
    let opts = ExportSvgOptions {
        code: String::new(),
        font_size: 14,
        ..Default::default()
    };
    let svg = export_svg(&opts);
    assert!(svg.contains("y=\"17\""));
    assert!(svg.contains("width=\"800\""));
}

#[test]
fn test_export_html_basic() {
    let opts = rusty_rich::export::ExportHtmlOptions { code: "Hello World".into(), ..Default::default() };
    let html = rusty_rich::export::export_html(&opts);
    assert!(html.contains("<!DOCTYPE html>"));
    assert!(html.contains("Hello World"));
    assert!(html.contains("rich-html"));
    assert!(html.contains("font-family"));
}

#[test]
fn test_export_html_escapes_markup() {
    let opts = rusty_rich::export::ExportHtmlOptions { code: "<script>alert('xss')</script>".into(), ..Default::default() };
    let html = rusty_rich::export::export_html(&opts);
    assert!(!html.contains("<script>"));
    assert!(html.contains("&lt;script&gt;"));
}

#[test]
fn test_export_html_fills_style_values() {
    let html = rusty_rich::export::export_html(&rusty_rich::export::ExportHtmlOptions::default());
    assert!(html.contains("rgb(255,255,255)"));
    assert!(html.contains("rgb(0,0,0)"));
    assert!(html.contains("1.45"));
    assert!(!html.contains("{line_height}"));
}

#[test]
fn test_strip_ansi_colon_parameters() {
    assert_eq!(strip_ansi_escapes("\x1b[38:2:255:0:0mX"), "X");
    assert_eq!(strip_ansi_escapes("a\x1b[<1;2Mb"), "ab");
}

#[test]
fn test_strip_leaves_no_escape_and_is_idempotent() {
    let s = "\x1b[38:2:255:0:0mX\x1b]0;title\x07Y\x1b[1m";
    let r = strip_ansi_escapes(s);
    assert_eq!(r, "XY");
    assert!(!r.contains('\x1b'));
    assert_eq!(strip_ansi_escapes(&r), r);
    assert_eq!(strip_ansi_escapes("plain text"), "plain text");
}

#[test]
fn test_escape_xml_leaves_no_specials() {
    let e = escape_xml("<a href=\"x\">it's & more</a>");
    assert_eq!(e, "&lt;a href=&quot;x&quot;&gt;it&apos;s &amp; more&lt;/a&gt;");
    assert!(!e.contains('<') && !e.contains('>') && !e.contains('"') && !e.contains('\''));
}

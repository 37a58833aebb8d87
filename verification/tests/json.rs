use rusty_rich::console::{ConsoleOptions, Renderable};
use rusty_rich::json::{escape_default, format_json_value, render_json, JsonStyles, JsonValue};
use rusty_rich::style::Style;
use rusty_rich::theme::Theme;

fn person() -> JsonValue {
    JsonValue::Object(vec![
        ("age".to_string(), JsonValue::Number("30".to_string())),
        ("name".to_string(), JsonValue::String("Alice".to_string())),
    ])
}

fn plain_styles() -> JsonStyles {
    JsonStyles {
        null: Style::new(),
        boolean: Style::new(),
        number: Style::new(),
        string: Style::new(),
        brace: Style::new(),
        key: Style::new(),
    }
}

#[test]
fn test_format_json() {
    let rendered = render_json(person());
    let result = rendered.render(&ConsoleOptions::default());
    assert!(result.to_ansi().contains("Alice"));
}

#[test]
fn test_format_json_layout() {
    let text = format_json_value(&person(), 2, 0, &plain_styles());
    assert_eq!(text, "{\n  \"age\": 30,\n  \"name\": \"Alice\"\n}");
}

#[test]
fn test_format_json_nested_and_empty() {
    let v = JsonValue::Array(vec![
        JsonValue::Null,
        JsonValue::Bool(false),
        JsonValue::Array(vec![]),
        JsonValue::Object(vec![]),
    ]);
    let text = format_json_value(&v, 4, 1, &plain_styles());
    assert_eq!(text, "[\n        null,\n        false,\n        [],\n        {}\n    ]");
}

#[test]
fn test_format_json_styles() {
    let mut st = plain_styles();
    st.number = Style::new().bold(true);
    let text = format_json_value(&JsonValue::Number("1".to_string()), 2, 0, &st);
    assert_eq!(text, "\x1b[1m1\x1b[0m");
    let mut st2 = plain_styles();
    st2.null = Style::new().bold(true);
    let text2 = format_json_value(&JsonValue::Null, 2, 0, &st2);
    assert_eq!(text2, "\x1b[1mnull\x1b[0m");
}

#[test]
fn test_escape_default() {
    assert_eq!(escape_default("a\"b\\c\n\té"), "a\\\"b\\\\c\\n\\t\\u{e9}");
    assert_eq!(escape_default("it's"), "it\\'s");
    assert_eq!(escape_default("\u{7f}"), "\\u{7f}");
    assert_eq!(escape_default("😀"), "\\u{1f600}");
}

#[test]
fn test_json_render_lines() {
    let r = render_json(person()).indent(4);
    let lines = r.render_lines();
    let texts: Vec<String> = lines.iter().map(|l| l[0].text.clone()).collect();
    assert_eq!(texts, vec!["{", "    \"age\": 30,", "    \"name\": \"Alice\"", "}"]);
}

#[test]
fn test_json_theme_style() {
    let mut t = Theme::new();
    t.add("json.str", Style::new().italic(true));
    let r = render_json(JsonValue::String("x".to_string())).theme(t);
    let lines = r.render_lines();
    assert_eq!(lines[0][0].text, "\x1b[3m\"x\"\x1b[0m");
}

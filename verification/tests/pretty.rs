use rusty_rich::console::{ConsoleOptions, Renderable};
use rusty_rich::json::JsonValue;
use rusty_rich::pretty::{install, json_to_node, parse_debug_to_node, pretty_repr, traverse, Node, Pretty};

#[test]
fn test_pretty_from_debug() {
    let value = vec!["hello", "world"];
    let pretty = Pretty::from_debug(&value);
    let opts = ConsoleOptions::default();
    let result = pretty.render(&opts);
    let ansi = result.to_ansi();
    assert!(ansi.contains("hello"));
    assert!(ansi.contains("world"));
}

#[test]
fn test_pretty_repr() {
    let text = pretty_repr(&42);
    assert!(!text.plain.is_empty());
}

#[test]
fn test_install_is_noop() {
    install();
}

#[test]
fn test_traverse() {
    let node = traverse(&"test");
    assert!(node.value.is_some());
}

#[test]
fn test_builder_methods() {
    let node = Node::new(None, Some("value".to_string()));
    let pretty = Pretty::new(node)
        .indent_guides(false)
        .max_depth(5)
        .max_string(100)
        .max_length(10)
        .expand_all();
    assert!(!pretty.indent_guides);
    assert_eq!(pretty.max_depth, Some(5));
    assert_eq!(pretty.max_string, Some(100));
    assert_eq!(pretty.max_length, Some(10));
    assert!(pretty.expand_all);
}

#[test]
fn test_parse_debug_list() {
    let node = parse_debug_to_node("[\n    1,\n    x: 2,\n]");
    assert!(node.is_container);
    assert_eq!(node.open_brace, "[");
    assert_eq!(node.close_brace, "]");
    assert_eq!(node.children.len(), 2);
    assert_eq!(node.children[0].value.as_deref(), Some("1,"));
    assert_eq!(node.children[1].key.as_deref(), Some("x"));
    assert_eq!(node.children[1].value.as_deref(), Some("2,"));
}

#[test]
fn test_parse_debug_scalar() {
    let node = parse_debug_to_node("42");
    assert!(!node.is_container);
    assert_eq!(node.value.as_deref(), Some("42"));
}

#[test]
fn test_pretty_from_json() {
    let value = JsonValue::Object(vec![
        ("age".to_string(), JsonValue::Number("30".to_string())),
        ("name".to_string(), JsonValue::String("Alice".to_string())),
    ]);
    let pretty = Pretty::from_json(&value);
    let opts = ConsoleOptions::default();
    let result = pretty.render(&opts);
    let ansi = result.to_ansi();
    assert!(ansi.contains("Alice"));
    assert!(ansi.contains("30"));
}

#[test]
fn test_max_depth() {
    let inner = JsonValue::Object(vec![(
        "a".to_string(),
        JsonValue::Object(vec![(
            "b".to_string(),
            JsonValue::Object(vec![("c".to_string(), JsonValue::Number("1".to_string()))]),
        )]),
    )]);
    let pretty = Pretty::from_json(&inner).max_depth(1);
    let opts = ConsoleOptions::default();
    let result = pretty.render(&opts);
    let ansi = result.to_ansi();
    assert!(ansi.contains("...") || ansi.contains("1"));
}

#[test]
fn test_json_to_node_empty_object() {
    let value = JsonValue::Object(Vec::new());
    let node = json_to_node(&value, None);
    assert!(node.is_container);
    assert!(node.children.is_empty());
}

#[test]
fn test_json_to_node_empty_array() {
    let value = JsonValue::Array(Vec::new());
    let node = json_to_node(&value, None);
    assert!(node.is_container);
    assert!(node.children.is_empty());
}

#[test]
fn test_json_to_node_scalars() {
    let null_node = json_to_node(&JsonValue::Null, None);
    assert_eq!(null_node.value.as_deref(), Some("null"));

    let bool_node = json_to_node(&JsonValue::Bool(true), Some("flag".into()));
    assert_eq!(bool_node.key.as_deref(), Some("flag"));
    assert_eq!(bool_node.value.as_deref(), Some("true"));

    let num_node = json_to_node(&JsonValue::Number("42".to_string()), None);
    assert_eq!(num_node.value.as_deref(), Some("42"));

    let str_node = json_to_node(&JsonValue::String("hello".to_string()), None);
    assert!(str_node.value.as_deref().unwrap_or("").contains("hello"));
}

#[test]
fn test_json_to_node_object_keys() {
    let value = JsonValue::Object(vec![("k".to_string(), JsonValue::String("v".to_string()))]);
    let node = json_to_node(&value, None);
    assert!(node.is_mapping);
    assert_eq!(node.open_brace, "{");
    assert_eq!(node.children[0].key.as_deref(), Some("k"));
    assert_eq!(node.children[0].value.as_deref(), Some("\"v\""));
}

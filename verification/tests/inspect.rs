use rusty_rich::console::{ConsoleOptions, Renderable};
use rusty_rich::inspect::{inspect_str, stable_sort, Inspect};

#[test]
fn test_inspect_new() {
    let val = vec![1, 2, 3];
    let insp = Inspect::new(&val);
    assert!(insp.value_repr.contains("1"));
    assert!(insp.value_repr.contains("2"));
    assert!(insp.value_repr.contains("3"));
}

#[test]
fn test_inspect_title() {
    let insp = Inspect::from_str("test_value").title("MyStruct");
    assert_eq!(insp.effective_title(), "MyStruct");
}

#[test]
fn test_inspect_add_attr() {
    let insp = Inspect::from_str("test")
        .add_attr("name", "String", "\"hello\"")
        .add_attr("count", "i32", "42");
    assert_eq!(insp.attrs.len(), 2);
    assert_eq!(insp.attrs[0].0, "name");
    assert_eq!(insp.attrs[1].0, "count");
}

#[test]
fn test_inspect_add_method() {
    let insp = Inspect::from_str("test").add_method("do_thing", "fn do_thing(&self, x: i32) -> bool");
    assert_eq!(insp.method_list.len(), 1);
    assert_eq!(insp.method_list[0].0, "do_thing");
}

#[test]
fn test_inspect_visibility() {
    let insp = Inspect::from_str("test");
    assert!(!insp.is_visible("_private"));
    assert!(insp.is_visible("public"));

    let insp2 = Inspect::from_str("test").private(true);
    assert!(insp2.is_visible("_private"));
    assert!(!insp2.is_visible("__dunder__"));

    let insp3 = Inspect::from_str("test").dunder(true);
    assert!(insp3.is_visible("__dunder__"));
}

#[test]
fn test_inspect_all() {
    let insp = Inspect::from_str("test").all(true);
    assert!(insp.is_visible("_private"));
    assert!(insp.is_visible("__dunder__"));
    assert!(insp.is_visible("public"));
}

#[test]
fn test_inspect_render() {
    let insp = Inspect::from_str("hello world")
        .title("TestObject")
        .add_attr("field1", "String", "\"value1\"")
        .add_attr("field2", "u64", "42");
    let opts = ConsoleOptions::default();
    let result = insp.render(&opts);
    let ansi = result.to_ansi();
    assert!(ansi.contains("TestObject"));
    assert!(ansi.contains("field1"));
    assert!(ansi.contains("field2"));
}

#[test]
fn test_inspect_with_methods() {
    let insp = Inspect::from_str("obj")
        .title("MyType")
        .methods(true)
        .add_method("run", "fn run(&mut self) -> Result<()>")
        .add_method("stop", "fn stop(&self)");
    let opts = ConsoleOptions::default();
    let result = insp.render(&opts);
    let ansi = result.to_ansi();
    assert!(ansi.contains("MyType"));
    assert!(ansi.contains("run"));
    assert!(ansi.contains("stop"));
}

#[test]
fn test_inspect_sorting() {
    let insp = Inspect::from_str("obj")
        .add_attr("zebra", "i32", "1")
        .add_attr("alpha", "i32", "2")
        .add_attr("beta", "i32", "3");
    let opts = ConsoleOptions::default();
    let result = insp.render(&opts);
    let ansi = result.to_ansi();
    assert!(!ansi.is_empty());
    assert_eq!(insp.attr_order(), vec![1, 2, 0]);
}

#[test]
fn test_inspect_default_title() {
    let insp = Inspect::from_str("x");
    assert_eq!(insp.effective_title(), "Object");
}

#[test]
fn test_stable_sort_keeps_equal_keys_in_order() {
    let keys: Vec<Vec<char>> = vec!["b".chars().collect(), "a".chars().collect(), "b".chars().collect(), "a".chars().collect()];
    let items = vec![0, 1, 2, 3];
    assert_eq!(stable_sort(&keys, &items), vec![1, 3, 0, 2]);
}

#[test]
fn test_inspect_sort_ignores_leading_underscores_and_case() {
    let insp = Inspect::from_str("obj")
        .all(true)
        .add_attr("_Beta", "i32", "1")
        .add_attr("alpha", "i32", "2");
    assert_eq!(insp.attr_order(), vec![1, 0]);
}

#[test]
fn test_inspect_str_sets_title() {
    let insp = inspect_str("T", "v");
    assert_eq!(insp.effective_title(), "T");
    assert_eq!(insp.value_repr, "v");
}

#[test]
fn test_inspect_render_sorts_attributes() {
    let i = Inspect::from_str("obj")
        .private(true)
        .add_attr("delta", "i32", "1")
        .add_attr("_gamma", "i32", "2")
        .add_attr("Beta", "i32", "3")
        .add_attr("alpha", "i32", "4");
    let a = i.render(&ConsoleOptions::default()).to_ansi();
    let pa = a.find("alpha").unwrap();
    let pb = a.find("Beta").unwrap();
    let pd = a.find("delta").unwrap();
    let pg = a.find("_gamma").unwrap();
    assert!(pa < pb && pb < pd && pd < pg);
}

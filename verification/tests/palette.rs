use rusty_rich::color::Color;
use rusty_rich::palette::Palette;

#[test]
fn test_palette_new() {
    let p = Palette::new("test");
    assert_eq!(p.name, "test");
    assert!(p.colors.is_empty());
}

#[test]
fn test_palette_add_and_get() {
    let mut p = Palette::new("test");
    p.add(Color::parse("red").unwrap());
    p.add(Color::parse("blue").unwrap());
    assert_eq!(p.get(0), &Color::parse("red").unwrap());
    assert_eq!(p.get(1), &Color::parse("blue").unwrap());
    assert_eq!(p.get(2), &Color::parse("red").unwrap());
}

#[test]
fn test_palette_standard() {
    let p = Palette::standard();
    assert_eq!(p.name, "standard");
    assert_eq!(p.colors.len(), 8);
}

#[test]
fn test_palette_extended() {
    let p = Palette::extended();
    assert_eq!(p.name, "extended");
    assert_eq!(p.colors.len(), 16);
}

#[test]
fn test_palette_standard_order() {
    let p = Palette::standard();
    assert_eq!(p.get(1), &Color::parse("red").unwrap());
    assert_eq!(p.get(9), &Color::parse("red").unwrap());
}

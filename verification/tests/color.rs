use rusty_rich::color::{rgb_to_8bit, Color, ColorSystem, ColorTriplet};

#[test]
fn test_default_color() {
    let c = Color::default();
    assert!(c.is_default());
}

#[test]
fn test_parse_red() {
    let c = Color::parse("red").unwrap();
    assert_eq!(c.number(), Some(1));
}

#[test]
fn test_parse_hex() {
    let c = Color::parse("#ff0000").unwrap();
    assert_eq!(c.triplet(), Some((255, 0, 0)));
}

#[test]
fn test_rgb_to_8bit_black() {
    assert_eq!(rgb_to_8bit(0, 0, 0), 16);
}

#[test]
fn test_from_triplet() {
    let triplet = ColorTriplet::new(255, 128, 0);
    let color = Color::from_triplet(&triplet);
    assert_eq!(color.triplet(), Some((255, 128, 0)));
}

#[test]
fn test_is_system_defined() {
    let default = Color::default();
    assert!(!default.is_system_defined());

    let red = Color::parse("red").unwrap();
    assert!(red.is_system_defined());

    let custom = Color::from_rgb(100, 200, 50);
    assert!(!custom.is_system_defined());
}

#[test]
fn test_get_ansi_codes_standard() {
    let red = Color::parse("red").unwrap();
    let (fg, _bg) = red.get_ansi_codes(false);
    assert!(fg.is_some());
    assert!(fg.unwrap().contains("31"));
}

#[test]
fn test_get_ansi_codes_background() {
    let blue = Color::parse("blue").unwrap();
    let (_fg, bg) = blue.get_ansi_codes(true);
    assert!(bg.is_some());
    assert!(bg.unwrap().contains("44"));
}

#[test]
fn test_get_ansi_codes_truecolor() {
    let c = Color::from_rgb(255, 128, 0);
    let (fg, _bg) = c.get_ansi_codes(false);
    assert!(fg.is_some());
    assert!(fg.unwrap().contains("38;2;255;128;0"));
}

#[test]
fn test_get_ansi_codes_default() {
    let c = Color::default();
    let (fg, bg) = c.get_ansi_codes(false);
    assert!(fg.is_none());
    assert!(bg.is_none());
}

#[test]
fn test_color_name() {
    let red = Color::parse("red").unwrap();
    assert_eq!(red.number(), Some(1));
}

#[test]
fn test_color_number() {
    let c = Color::from_8bit(42);
    assert_eq!(c.number(), Some(42));
}

#[test]
fn test_color_triplet() {
    let c = Color::from_rgb(10, 20, 30);
    assert_eq!(c.triplet(), Some((10, 20, 30)));
    let d = Color::default();
    assert_eq!(d.triplet(), None);
}

#[test]
fn test_color_to_string_forms() {
    assert_eq!(Color::default().to_string(), "default");
    assert_eq!(Color::from_8bit(200).to_string(), "color(200)");
    assert_eq!(Color::from_rgb(255, 0, 16).to_string(), "#ff0010");
    assert_eq!(ColorTriplet::new(1, 2, 3).to_string(), "#010203");
    assert_eq!(ColorSystem::TrueColor.to_string(), "truecolor");
}

#[test]
fn test_parse_errors() {
    assert!(Color::parse("not-a-color").is_err());
    assert!(Color::parse("#zzzzzz").is_err());
}

#[test]
fn test_downgrade_to_standard_is_idempotent() {
    let c = Color::from_rgb(200, 30, 30);
    let once = c.downgrade(ColorSystem::Standard);
    let twice = once.downgrade(ColorSystem::Standard);
    assert_eq!(once.number(), twice.number());
    assert!(once.number().unwrap() < 16);
}

#[test]
fn test_downgrade_low_8bit_to_standard() {
    let c = Color::from_8bit(9);
    let d = c.downgrade(ColorSystem::Standard);
    assert_eq!(d.number(), Some(9));
    assert!(matches!(d.color_type(), rusty_rich::color::ColorType::Standard));
    let again = d.downgrade(ColorSystem::Standard);
    assert_eq!(again.number(), d.number());
}

#[test]
fn test_from_ansi_name_keeps_name() {
    let c = Color::from_ansi_name("red").unwrap();
    assert_eq!(c.name(), Some("red"));
}

#[test]
fn test_bright_red_codes() {
    let c = Color::parse("bright_red").unwrap();
    assert_eq!(c.get_ansi_codes(false), (Some("91".to_string()), None));
    assert_eq!(c.get_ansi_codes(true), (None, Some("101".to_string())));
}

#[test]
fn test_standard_triplet_from_palette() {
    let c = Color::parse("red").unwrap();
    assert_eq!(c.triplet(), Some((128, 0, 0)));
}

#[test]
fn test_rgb_to_8bit_light_grey() {
    assert_eq!(rgb_to_8bit(248, 248, 248), 231);
    assert_eq!(rgb_to_8bit(247, 247, 247), 255);
}

#[test]
fn test_downgrade_keeps_or_drops_name() {
    let red = Color::parse("Red").unwrap();
    assert_eq!(red.name(), Some("red"));
    assert_eq!(red.downgrade(ColorSystem::Standard).name(), Some("red"));
    let grey = Color::parse("grey50").unwrap();
    assert_eq!(grey.name(), Some("grey50"));
    assert_eq!(grey.downgrade(ColorSystem::EightBit).name(), Some("grey50"));
    assert_eq!(grey.downgrade(ColorSystem::Standard).name(), None);
    let hex = Color::parse("#ff0000").unwrap();
    assert_eq!(hex.name(), None);
    let d = hex.downgrade(ColorSystem::Standard);
    assert_eq!(d.downgrade(ColorSystem::Standard), d);
    assert_eq!(d.name(), None);
}

#[test]
fn test_rgb_to_standard_picks_nearest() {
    assert_eq!(rusty_rich::color::rgb_to_standard(255, 0, 0), 9);
    assert_eq!(rusty_rich::color::rgb_to_standard(0, 0, 0), 0);
}

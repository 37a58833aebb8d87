use rusty_rich::control::{
    control_bell, control_home, control_move_to, escape_control_codes, strip_control_codes, Control,
};

#[test]
fn test_control_bell() {
    let c = Control::bell();
    assert_eq!(c.to_ansi(), "\x07");
}

#[test]
fn test_control_home() {
    let c = Control::home();
    assert_eq!(c.to_ansi(), "\x1b[H");
}

#[test]
fn test_control_clear() {
    let c = Control::clear();
    assert_eq!(c.to_ansi(), "\x1b[2J");
}

#[test]
fn test_control_clear_home() {
    let c = Control::clear_home();
    assert_eq!(c.to_ansi(), "\x1b[2J\x1b[H");
}

#[test]
fn test_control_cursor_to() {
    let c = Control::cursor_to(10, 5);
    assert_eq!(c.to_ansi(), "\x1b[10;5H");
}

#[test]
fn test_control_cursor_up() {
    let c = Control::cursor_up(5);
    assert_eq!(c.to_ansi(), "\x1b[5A");
}

#[test]
fn test_control_show_cursor() {
    let c = Control::show_cursor(true);
    assert_eq!(c.to_ansi(), "\x1b[?25h");
    let c = Control::show_cursor(false);
    assert_eq!(c.to_ansi(), "\x1b[?25l");
}

#[test]
fn test_control_alt_screen() {
    let c = Control::alt_screen(true);
    assert_eq!(c.to_ansi(), "\x1b[?1049h");
    let c = Control::alt_screen(false);
    assert_eq!(c.to_ansi(), "\x1b[?1049l");
}

#[test]
fn test_control_title() {
    let c = Control::title("My App");
    assert_eq!(c.to_ansi(), "\x1b]0;My App\x07");
}

#[test]
fn test_control_erase() {
    assert_eq!(Control::erase_line().to_ansi(), "\x1b[2K");
    assert_eq!(Control::erase_end_line().to_ansi(), "\x1b[K");
    assert_eq!(Control::erase_start_line().to_ansi(), "\x1b[1K");
}

#[test]
fn test_control_insert_delete_lines() {
    assert_eq!(Control::insert_lines(3).to_ansi(), "\x1b[3L");
    assert_eq!(Control::delete_lines(2).to_ansi(), "\x1b[2M");
}

#[test]
fn test_control_len_empty() {
    assert_eq!(Control::bell().len(), 1);
    assert_eq!(Control::clear_home().len(), 2);
    assert!(!Control::bell().is_empty());
}

#[test]
fn test_strip_control_codes() {
    assert_eq!(strip_control_codes("hello\x07world"), "helloworld");
    assert_eq!(strip_control_codes("normal text"), "normal text");
}

#[test]
fn test_escape_control_codes() {
    let result = escape_control_codes("\x07\x08\x0b\x0c");
    assert_eq!(result, "\\a\\b\\v\\f");
}

#[test]
fn test_convenience_functions() {
    assert_eq!(control_bell().to_ansi(), "\x07");
    assert_eq!(control_home().to_ansi(), "\x1b[H");
    assert_eq!(control_move_to(3, 8).to_ansi(), "\x1b[3;8H");
}

#[test]
fn test_control_new_concatenates() {
    let c = Control::new(&["\x1b[H", "\x1b[2J"]);
    assert_eq!(c.to_ansi(), "\x1b[H\x1b[2J");
    assert_eq!(c.len(), 2);
}

use clipboard_history::decimal::{format_decimal, parse_decimal};
use clipboard_history::shortcut_manager::{parse_key_code, parse_shortcut, validate_hotkey, HotkeyModifiers, KeyCode};

#[test]
fn parse_integers() {
    assert_eq!(parse_decimal("5000", i64::MIN, i64::MAX), Some(5000));
    assert_eq!(parse_decimal("-12", i64::MIN, i64::MAX), Some(-12));
    assert_eq!(parse_decimal("+7", i64::MIN, i64::MAX), Some(7));
    assert_eq!(parse_decimal("007", i64::MIN, i64::MAX), Some(7));
    assert_eq!(parse_decimal("9223372036854775807", i64::MIN, i64::MAX), Some(i64::MAX));
    assert_eq!(parse_decimal("-9223372036854775808", i64::MIN, i64::MAX), Some(i64::MIN));
}

#[test]
fn reject_bad_integers() {
    assert_eq!(parse_decimal("", i64::MIN, i64::MAX), None);
    assert_eq!(parse_decimal("-", i64::MIN, i64::MAX), None);
    assert_eq!(parse_decimal("+", i64::MIN, i64::MAX), None);
    assert_eq!(parse_decimal("12a", i64::MIN, i64::MAX), None);
    assert_eq!(parse_decimal(" 1", i64::MIN, i64::MAX), None);
    assert_eq!(parse_decimal("9223372036854775808", i64::MIN, i64::MAX), None);
    assert_eq!(parse_decimal("99999999999999999999999", i64::MIN, i64::MAX), None);
    assert_eq!(parse_decimal("2147483648", i32::MIN as i64, i32::MAX as i64), None);
}

#[test]
fn format_integers() {
    assert_eq!(format_decimal(0), "0");
    assert_eq!(format_decimal(5000), "5000");
    assert_eq!(format_decimal(-42), "-42");
    assert_eq!(format_decimal(i64::MIN), "-9223372036854775808");
    assert_eq!(format_decimal(i64::MAX), "9223372036854775807");
}

#[test]
fn hotkey_alt_v() {
    let none = HotkeyModifiers { alt: false, ctrl: false, shift: false, meta: false };
    assert_eq!(parse_shortcut("Alt+V"), Ok((HotkeyModifiers { alt: true, ..none }, KeyCode::KeyV)));
    assert!(validate_hotkey("Alt+V").is_ok());
}

#[test]
fn hotkey_with_several_modifiers() {
    let r = parse_shortcut("Ctrl+Shift+C").unwrap();
    assert_eq!(r.0, HotkeyModifiers { alt: false, ctrl: true, shift: true, meta: false });
    assert_eq!(r.1, KeyCode::KeyC);
    let r = parse_shortcut(" control + WIN + f12 ").unwrap();
    assert_eq!(r.0, HotkeyModifiers { alt: false, ctrl: true, shift: false, meta: true });
    assert_eq!(r.1, KeyCode::F12);
}

#[test]
fn hotkey_without_key_is_invalid() {
    assert!(validate_hotkey("Alt+Shift").is_err());
    assert!(validate_hotkey("").is_err());
}

#[test]
fn hotkey_with_unknown_key_is_invalid() {
    assert_eq!(parse_shortcut("Alt+Foo"), Err("Unknown key code: foo".to_string()));
    assert!(parse_key_code("PageUp").is_ok());
    assert_eq!(parse_key_code("page_down"), Ok(KeyCode::PageDown));
    assert!(parse_key_code("f13").is_err());
}

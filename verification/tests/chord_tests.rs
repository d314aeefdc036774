use shortcut_core::chord::parse_chord;
use shortcut_core::errors::ShortcutError;

#[test]
fn parse_simple_chord() {
    let c = parse_chord("ctrl+shift+space").unwrap();
    assert!(c.ctrl);
    assert!(c.shift);
    assert!(!c.alt);
    assert!(!c.meta);
    let key: String = c.key.iter().collect();
    assert_eq!(key, "space");
}

#[test]
fn parse_is_case_and_order_insensitive() {
    let a = parse_chord("ctrl+shift+space").unwrap();
    let b = parse_chord("SHIFT + CTRL + SPACE").unwrap();
    assert!(a.chord_eq(&b));
}

#[test]
fn parse_modifier_synonyms_collide() {
    let a = parse_chord("cmd+c").unwrap();
    let b = parse_chord("command+c").unwrap();
    let c = parse_chord("super+c").unwrap();
    assert!(a.chord_eq(&b));
    assert!(a.chord_eq(&c));
    let d = parse_chord("control+c").unwrap();
    let e = parse_chord("ctrl+c").unwrap();
    assert!(d.chord_eq(&e));
    assert!(!a.chord_eq(&d));
}

#[test]
fn parse_single_key() {
    let c = parse_chord("f5").unwrap();
    assert!(!c.ctrl && !c.shift && !c.alt && !c.meta);
    let key: String = c.key.iter().collect();
    assert_eq!(key, "f5");
}

#[test]
fn parse_rejects_two_keys() {
    assert!(matches!(parse_chord("a+b"), Err(ShortcutError::ParseFailed)));
}

#[test]
fn parse_rejects_modifier_only() {
    assert!(matches!(parse_chord("ctrl"), Err(ShortcutError::ParseFailed)));
    assert!(matches!(parse_chord("ctrl+shift"), Err(ShortcutError::ParseFailed)));
}

#[test]
fn parse_rejects_empty_key_token() {
    assert!(matches!(parse_chord("ctrl++a"), Err(ShortcutError::ParseFailed)));
    assert!(matches!(parse_chord("ctrl+"), Err(ShortcutError::ParseFailed)));
    assert!(matches!(parse_chord(""), Err(ShortcutError::ParseFailed)));
}

use shortcut_core::errors::ShortcutError;
use shortcut_core::validate::{is_fn_binding, validate_shortcut_string};

#[test]
fn empty_string_is_invalid() {
    assert_eq!(validate_shortcut_string("", false), Err(ShortcutError::Invalid));
    assert_eq!(validate_shortcut_string("", true), Err(ShortcutError::Invalid));
}

#[test]
fn fn_text_is_accepted_on_fn_platform() {
    assert_eq!(validate_shortcut_string("fn", true), Ok(()));
    assert_eq!(validate_shortcut_string("FN", true), Ok(()));
    assert_eq!(validate_shortcut_string("Fn", true), Ok(()));
}

#[test]
fn modifier_only_is_rejected() {
    assert_eq!(validate_shortcut_string("ctrl", false), Err(ShortcutError::Invalid));
    assert_eq!(validate_shortcut_string("ctrl+shift", false), Err(ShortcutError::Invalid));
    assert_eq!(validate_shortcut_string("ctrl+shift", true), Err(ShortcutError::Invalid));
    assert_eq!(validate_shortcut_string("CTRL+SHIFT", false), Err(ShortcutError::Invalid));
    assert_eq!(validate_shortcut_string("meta+cmd+super+win+windows", false), Err(ShortcutError::Invalid));
    assert_eq!(validate_shortcut_string("alt+option+control", false), Err(ShortcutError::Invalid));
}

#[test]
fn chord_with_key_is_accepted() {
    assert_eq!(validate_shortcut_string("ctrl+shift+space", false), Ok(()));
    assert_eq!(validate_shortcut_string("f5", false), Ok(()));
    assert_eq!(validate_shortcut_string("CTRL+SHIFT+SPACE", false), Ok(()));
    assert_eq!(validate_shortcut_string(" ctrl + x ", false), Ok(()));
}

#[test]
fn fn_binding_detection_is_case_insensitive() {
    assert!(is_fn_binding("fn"));
    assert!(is_fn_binding("FN"));
    assert!(is_fn_binding("Fn"));
    assert!(!is_fn_binding("fn "));
    assert!(!is_fn_binding("f"));
    assert!(!is_fn_binding("function"));
}

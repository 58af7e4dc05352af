//! Keys, shortcuts and modifiers.

use tiny_dfr::keys::{
    canonical_key_name, is_unknown_key_name, key_lookup, parse_key_name, Key, KEY_BRIGHTNESS_DOWN, KEY_BRIGHTNESS_UP,
    KEY_ESC, KEY_FN, KEY_ILLUM_DOWN, KEY_ILLUM_UP, KEY_LEFT_ALT, KEY_LEFT_CTRL, KEY_LEFT_META,
    KEY_LEFT_SHIFT, KEY_MACRO1, KEY_MACRO2, KEY_MACRO3, KEY_MACRO4, KEY_RIGHT_ALT, KEY_RIGHT_CTRL,
    KEY_RIGHT_META, KEY_RIGHT_SHIFT, KEY_TIME, KEY_UNKNOWN,
};
use tiny_dfr::shortcut::{KeyboardModifiers, KeyboardShortcut, LayerShortcut};

#[test]
fn key_codes_are_those_of_the_input_layer() {
    assert_eq!(KEY_ESC, input_linux::Key::Esc as u16);
    assert_eq!(KEY_LEFT_CTRL, input_linux::Key::LeftCtrl as u16);
    assert_eq!(KEY_RIGHT_CTRL, input_linux::Key::RightCtrl as u16);
    assert_eq!(KEY_LEFT_ALT, input_linux::Key::LeftAlt as u16);
    assert_eq!(KEY_RIGHT_ALT, input_linux::Key::RightAlt as u16);
    assert_eq!(KEY_LEFT_SHIFT, input_linux::Key::LeftShift as u16);
    assert_eq!(KEY_RIGHT_SHIFT, input_linux::Key::RightShift as u16);
    assert_eq!(KEY_LEFT_META, input_linux::Key::LeftMeta as u16);
    assert_eq!(KEY_RIGHT_META, input_linux::Key::RightMeta as u16);
    assert_eq!(KEY_BRIGHTNESS_DOWN, input_linux::Key::BrightnessDown as u16);
    assert_eq!(KEY_BRIGHTNESS_UP, input_linux::Key::BrightnessUp as u16);
    assert_eq!(KEY_ILLUM_DOWN, input_linux::Key::IllumDown as u16);
    assert_eq!(KEY_ILLUM_UP, input_linux::Key::IllumUp as u16);
    assert_eq!(KEY_UNKNOWN, input_linux::Key::Unknown as u16);
    assert_eq!(KEY_TIME, input_linux::Key::Time as u16);
    assert_eq!(KEY_FN, input_linux::Key::Fn as u16);
    assert_eq!(KEY_MACRO1, input_linux::Key::Macro1 as u16);
    assert_eq!(KEY_MACRO2, input_linux::Key::Macro2 as u16);
    assert_eq!(KEY_MACRO3, input_linux::Key::Macro3 as u16);
    assert_eq!(KEY_MACRO4, input_linux::Key::Macro4 as u16);
}

#[test]
fn names_of_the_input_layer_are_keys() {
    assert_eq!(parse_key_name("F1"), Some(Key { code: input_linux::Key::F1 as u16 }));
    assert_eq!(parse_key_name("Time"), Some(Key { code: KEY_TIME }));
    assert_eq!(
        parse_key_name("  VolumeUp\t"),
        Some(Key { code: input_linux::Key::VolumeUp as u16 })
    );
}

#[test]
fn marks_are_spelled_out() {
    assert_eq!(canonical_key_name("."), "Dot");
    assert_eq!(canonical_key_name(","), "Comma");
    assert_eq!(canonical_key_name("<"), "Comma");
    assert_eq!(canonical_key_name("\\"), "Backslash");
    assert_eq!(canonical_key_name("`"), "Grave");
    assert_eq!(canonical_key_name("Dot"), "Dot");
    assert_eq!(parse_key_name("."), Some(Key { code: input_linux::Key::Dot as u16 }));
    assert_eq!(parse_key_name(" < "), Some(Key { code: input_linux::Key::Comma as u16 }));
    assert_eq!(parse_key_name("-"), Some(Key { code: input_linux::Key::Minus as u16 }));
}

#[test]
fn blank_and_unknown_names_are_no_keys() {
    assert_eq!(parse_key_name(""), None);
    assert_eq!(parse_key_name("  \t "), None);
    assert_eq!(parse_key_name("NoSuchKey"), None);
    assert_eq!(parse_key_name("\""), None);
    assert!(is_unknown_key_name("NoSuchKey"));
    assert!(!is_unknown_key_name("F1"));
    assert!(!is_unknown_key_name("  "));
    assert_eq!(key_lookup("   "), None);
    assert_eq!(key_lookup(" = "), Some("action = \"Equal\"".to_string()));
}

#[test]
fn other_entries_beside_the_key_are_ignored() {
    let f1 = Some(Key { code: input_linux::Key::F1 as u16 });
    assert_eq!(parse_key_name("F1\" # "), f1);
    assert_eq!(parse_key_name("F1\"\nother = \"Esc"), f1);
    assert_eq!(
        parse_key_name("F1\"\nt = { \"$__toml_private_datetime\" = \"x\" }\nu = \""),
        f1
    );
    assert_eq!(parse_key_name("F1\"\naction = \"F2"), None);
}

#[test]
fn modifiers_follow_both_keys() {
    let mut m = KeyboardModifiers::default();
    assert!(!m.ctrl && !m.alt && !m.shift && !m.super_key);
    m.update(KEY_RIGHT_CTRL as u32, true);
    m.update(KEY_LEFT_META as u32, true);
    assert!(m.ctrl && m.super_key && !m.alt && !m.shift);
    m.update(KEY_LEFT_CTRL as u32, false);
    assert!(!m.ctrl && m.super_key);
    m.update(30, true);
    assert!(!m.ctrl && m.super_key && !m.alt && !m.shift);
}

fn plain_shortcut() -> KeyboardShortcut {
    KeyboardShortcut {
        key: None,
        code: Some(51),
        require_fn: None,
        ctrl: None,
        alt: None,
        shift: None,
        super_key: None,
    }
}

#[test]
fn shortcut_conditions_must_be_met() {
    let none = KeyboardModifiers::default();
    let mut shift = KeyboardModifiers::default();
    shift.shift = true;
    let s = plain_shortcut();
    assert!(s.matches(51, false, &none, false));
    assert!(!s.matches(52, false, &none, false));
    assert!(!s.matches(51, false, &none, true));
    assert!(s.matches(51, true, &none, true));
    let mut without_fn = plain_shortcut();
    without_fn.require_fn = Some(false);
    assert!(!without_fn.matches(51, true, &none, true));
    assert!(without_fn.matches(51, false, &none, true));
    let mut with_shift = plain_shortcut();
    with_shift.shift = Some(true);
    assert!(!with_shift.matches(51, true, &none, true));
    assert!(with_shift.matches(51, true, &shift, true));
    let mut no_shift = plain_shortcut();
    no_shift.shift = Some(false);
    assert!(!no_shift.matches(51, true, &shift, true));
}

#[test]
fn shortcut_code_goes_before_the_key_name() {
    let none = KeyboardModifiers::default();
    let mut s = plain_shortcut();
    s.key = Some("F1".to_string());
    assert!(s.matches(51, false, &none, false));
    assert!(!s.matches(59, false, &none, false));
    s.code = None;
    assert!(s.matches(input_linux::Key::F1 as u32, false, &none, false));
    s.key = Some("NoSuchKey".to_string());
    assert!(!s.matches(59, false, &none, false));
    s.key = None;
    assert!(!s.matches(0, false, &none, false));
}

#[test]
fn specific_layer_shortcuts_go_first() {
    let s = LayerShortcut {
        key: Some("F1".to_string()),
        code: None,
        layer: 5,
        require_fn: Some(false),
        ctrl: Some(true),
        alt: None,
        shift: Some(false),
        super_key: None,
    };
    assert_eq!(s.match_priority(), 5 + 64 + 16 + 16 + 8);
    let bare = LayerShortcut {
        key: None,
        code: None,
        layer: 3,
        require_fn: None,
        ctrl: None,
        alt: None,
        shift: None,
        super_key: None,
    };
    assert_eq!(bare.match_priority(), 3);
    let mut ctrl = KeyboardModifiers::default();
    ctrl.ctrl = true;
    assert!(s.matches(input_linux::Key::F1 as u32, false, &ctrl));
    assert!(!s.matches(input_linux::Key::F1 as u32, true, &ctrl));
}

#[test]
fn layer_shortcuts_need_fn_by_default() {
    let none = KeyboardModifiers::default();
    let s = LayerShortcut {
        key: None,
        code: Some(2),
        layer: 1,
        require_fn: None,
        ctrl: None,
        alt: None,
        shift: None,
        super_key: None,
    };
    assert!(!s.matches(2, false, &none));
    assert!(s.matches(2, true, &none));
}

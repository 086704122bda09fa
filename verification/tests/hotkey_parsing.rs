use simplestt::hotkey::{
    key_code_of_upper, parse_hotkey, parse_modifier, parse_vk, GlobalHotkey, HotkeyError,
    MOD_ALT, MOD_CONTROL, MOD_NOREPEAT, MOD_SHIFT, MOD_WIN,
};

#[test]
fn modifier_names_are_exact() {
    assert_eq!(parse_modifier("Ctrl"), Some(MOD_CONTROL));
    assert_eq!(parse_modifier("Control"), Some(MOD_CONTROL));
    assert_eq!(parse_modifier("Alt"), Some(MOD_ALT));
    assert_eq!(parse_modifier("Shift"), Some(MOD_SHIFT));
    assert_eq!(parse_modifier("Win"), Some(MOD_WIN));
    assert_eq!(parse_modifier("Super"), Some(MOD_WIN));
    assert_eq!(parse_modifier("ctrl"), None);
    assert_eq!(parse_modifier(" Ctrl"), None);
    assert_eq!(parse_modifier(""), None);
}

#[test]
fn modifier_bits_have_win32_values() {
    assert_eq!(MOD_ALT, 1);
    assert_eq!(MOD_CONTROL, 2);
    assert_eq!(MOD_SHIFT, 4);
    assert_eq!(MOD_WIN, 8);
    assert_eq!(MOD_NOREPEAT, 0x4000);
}

#[test]
fn function_keys() {
    assert_eq!(parse_vk("F1"), Some(0x70));
    assert_eq!(parse_vk("f9"), Some(0x78));
    assert_eq!(parse_vk("F24"), Some(0x87));
    assert_eq!(parse_vk("F09"), Some(0x78));
    assert_eq!(parse_vk("F25"), None);
    assert_eq!(parse_vk("F0"), None);
    assert_eq!(parse_vk("F"), None);
    assert_eq!(parse_vk("Foo"), None);
    assert_eq!(parse_vk("F-1"), None);
    assert_eq!(parse_vk("F99999999999"), None);
}

#[test]
fn function_key_number_takes_a_plus_sign() {
    assert_eq!(parse_vk("F+9"), Some(0x78));
    assert_eq!(parse_vk("F+"), None);
}

#[test]
fn named_keys() {
    assert_eq!(parse_vk("space"), Some(0x20));
    assert_eq!(parse_vk("Escape"), Some(0x1B));
    assert_eq!(parse_vk("esc"), Some(0x1B));
    assert_eq!(parse_vk("Enter"), Some(0x0D));
    assert_eq!(parse_vk("return"), Some(0x0D));
    assert_eq!(parse_vk("Tab"), Some(0x09));
    assert_eq!(parse_vk("backspace"), Some(0x08));
    assert_eq!(parse_vk("Delete"), Some(0x2E));
    assert_eq!(parse_vk("del"), Some(0x2E));
}

#[test]
fn letters_and_digits() {
    assert_eq!(parse_vk("a"), Some(0x41));
    assert_eq!(parse_vk("R"), Some(0x52));
    assert_eq!(parse_vk("7"), Some(0x37));
    assert_eq!(parse_vk("ab"), None);
    assert_eq!(parse_vk("-"), None);
    assert_eq!(parse_vk(""), None);
    assert_eq!(parse_vk("é"), None);
}

#[test]
fn key_code_of_upper_does_not_case_fold() {
    assert_eq!(key_code_of_upper("F9"), Some(0x78));
    assert_eq!(key_code_of_upper("f9"), None);
    assert_eq!(key_code_of_upper("SPACE"), Some(0x20));
    assert_eq!(key_code_of_upper("Space"), None);
    assert_eq!(key_code_of_upper("Q"), Some(0x51));
    assert_eq!(key_code_of_upper("q"), None);
}

#[test]
fn single_key_gets_norepeat() {
    let chord = parse_hotkey("F9").unwrap();
    assert_eq!(chord.modifiers, MOD_NOREPEAT);
    assert_eq!(chord.vk, 0x78);
}

#[test]
fn combination_with_modifiers() {
    let chord = parse_hotkey("Ctrl+Alt+F9").unwrap();
    assert_eq!(chord.modifiers, MOD_CONTROL | MOD_ALT | MOD_NOREPEAT);
    assert_eq!(chord.vk, 0x78);
    let chord = parse_hotkey(" Ctrl + Shift + r ").unwrap();
    assert_eq!(chord.modifiers, MOD_CONTROL | MOD_SHIFT | MOD_NOREPEAT);
    assert_eq!(chord.vk, 0x52);
    let chord = parse_hotkey("Win+Super+space").unwrap();
    assert_eq!(chord.modifiers, MOD_WIN | MOD_NOREPEAT);
    assert_eq!(chord.vk, 0x20);
}

#[test]
fn unknown_modifier_is_reported_first() {
    match parse_hotkey("Ctrl+Hyper+Nope") {
        Err(HotkeyError::UnknownModifier(name)) => assert_eq!(name, "Hyper"),
        other => panic!("unexpected {:?}", other),
    }
    match parse_hotkey("ctrl+F9") {
        Err(e) => assert_eq!(e.message(), "unknown modifier: ctrl"),
        other => panic!("unexpected {:?}", other),
    }
}

#[test]
fn unknown_key_is_reported() {
    match parse_hotkey("Ctrl+Nope") {
        Err(HotkeyError::UnknownKey(name)) => assert_eq!(name, "Nope"),
        other => panic!("unexpected {:?}", other),
    }
    match parse_hotkey("Alt+") {
        Err(e) => assert_eq!(e.message(), "unknown key: "),
        other => panic!("unexpected {:?}", other),
    }
    match parse_hotkey("") {
        Err(HotkeyError::UnknownKey(name)) => assert_eq!(name, ""),
        other => panic!("unexpected {:?}", other),
    }
}

#[test]
fn empty_modifier_piece_is_refused() {
    match parse_hotkey("+F9") {
        Err(HotkeyError::UnknownModifier(name)) => assert_eq!(name, ""),
        other => panic!("unexpected {:?}", other),
    }
}

#[test]
fn unregister_releases_once() {
    let mut h = GlobalHotkey::registered(1);
    assert_eq!(h.id(), 1);
    assert!(h.is_registered());
    assert!(h.unregister());
    assert!(!h.is_registered());
    assert!(!h.unregister());
    assert_eq!(h.id(), 1);
}

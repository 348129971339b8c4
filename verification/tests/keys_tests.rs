use deskremote::keys::{
    button_of_name, key_of_name, modkey_of_name, KeyAction, ModKey, MouseButton, NamedKey,
};

#[test]
fn keys_named_table() {
    assert_eq!(key_of_name(b"space"), Some(KeyAction::Named(NamedKey::Space)));
    assert_eq!(key_of_name(b"enter"), Some(KeyAction::Named(NamedKey::Return)));
    assert_eq!(key_of_name(b"return"), Some(KeyAction::Named(NamedKey::Return)));
    assert_eq!(key_of_name(b"esc"), Some(KeyAction::Named(NamedKey::Escape)));
    assert_eq!(key_of_name(b"up"), Some(KeyAction::Named(NamedKey::UpArrow)));
    assert_eq!(key_of_name(b"backspace"), Some(KeyAction::Named(NamedKey::Backspace)));
    assert_eq!(key_of_name(b"f1"), Some(KeyAction::Named(NamedKey::F1)));
    assert_eq!(key_of_name(b"f12"), Some(KeyAction::Named(NamedKey::F12)));
}

#[test]
fn keys_match_is_case_insensitive() {
    assert_eq!(key_of_name(b"SPACE"), Some(KeyAction::Named(NamedKey::Space)));
    assert_eq!(key_of_name(b"Ctrl"), Some(KeyAction::Named(NamedKey::Control)));
    assert_eq!(key_of_name(b"F11"), Some(KeyAction::Named(NamedKey::F11)));
}

#[test]
fn keys_letters_become_characters() {
    assert_eq!(key_of_name(b"a"), Some(KeyAction::Char(b'a')));
    assert_eq!(key_of_name(b"z"), Some(KeyAction::Char(b'z')));
    // upper case letters fold to the lower case character
    assert_eq!(key_of_name(b"A"), Some(KeyAction::Char(b'a')));
}

#[test]
fn keys_single_byte_fallback_is_raw() {
    assert_eq!(key_of_name(b"?"), Some(KeyAction::Char(b'?')));
    assert_eq!(key_of_name(b"7"), Some(KeyAction::Char(b'7')));
}

#[test]
fn keys_unknown_names_are_rejected() {
    assert_eq!(key_of_name(b"hyperdrive"), None);
    assert_eq!(key_of_name(b""), None);
}

#[test]
fn mouse_buttons_match_exactly() {
    assert_eq!(button_of_name(b"left"), Some(MouseButton::Left));
    assert_eq!(button_of_name(b"right"), Some(MouseButton::Right));
    assert_eq!(button_of_name(b"middle"), Some(MouseButton::Middle));
    assert_eq!(button_of_name(b"Left"), None);
    assert_eq!(button_of_name(b"wheel"), None);
}

#[test]
fn modifier_names_and_aliases() {
    assert_eq!(modkey_of_name(b"shift"), Some(ModKey::Shift));
    assert_eq!(modkey_of_name(b"ctrl"), Some(ModKey::Control));
    assert_eq!(modkey_of_name(b"control"), Some(ModKey::Control));
    assert_eq!(modkey_of_name(b"alt"), Some(ModKey::Alt));
    assert_eq!(modkey_of_name(b"option"), Some(ModKey::Alt));
    assert_eq!(modkey_of_name(b"cmd"), Some(ModKey::Meta));
    assert_eq!(modkey_of_name(b"META"), Some(ModKey::Meta));
    assert_eq!(modkey_of_name(b"windows"), None);
}

use deskremote::keys::ModKey;
use deskremote::modifiers::{cleared_message, toggle_message, ModifierStates};

#[test]
fn modifiers_start_unpressed() {
    let m = ModifierStates::new();
    assert!(!m.get(b"shift"));
    assert!(!m.get(b"cmd"));
    assert_eq!(
        String::from_utf8(m.states_json()).unwrap(),
        r#"{"cmd":false,"shift":false,"alt":false,"option":false,"ctrl":false,"control":false}"#
    );
}

#[test]
fn modifiers_toggle_plan_and_commit() {
    let mut m = ModifierStates::new();
    let (key, new_state) = m.plan_toggle(b"shift").unwrap();
    assert_eq!(key, ModKey::Shift);
    assert!(new_state);
    m.commit_toggle(b"shift", new_state);
    assert!(m.get(b"shift"));

    let (_, again) = m.plan_toggle(b"shift").unwrap();
    assert!(!again);
    m.commit_toggle(b"shift", again);
    assert!(!m.get(b"shift"));
}

#[test]
fn modifiers_unknown_name_is_rejected() {
    let m = ModifierStates::new();
    let e = m.plan_toggle(b"hyper").unwrap_err();
    assert_eq!(
        String::from_utf8(e).unwrap(),
        "Unknown modifier key: hyper"
    );
}

#[test]
fn modifiers_short_names_write_their_aliases() {
    let mut m = ModifierStates::new();
    m.commit_toggle(b"alt", true);
    assert!(m.get(b"alt"));
    assert!(m.get(b"option"));
    m.commit_toggle(b"ctrl", true);
    assert!(m.get(b"control"));
    m.commit_toggle(b"cmd", true);
    assert!(m.get(b"meta"));
    assert_eq!(
        String::from_utf8(m.states_json()).unwrap(),
        r#"{"cmd":true,"shift":false,"alt":true,"option":true,"ctrl":true,"control":true}"#
    );
}

#[test]
fn modifiers_long_names_stand_alone() {
    let mut m = ModifierStates::new();
    m.commit_toggle(b"option", true);
    assert!(m.get(b"option"));
    assert!(!m.get(b"alt"));
}

#[test]
fn modifiers_alias_check_is_exact_on_the_raw_name() {
    let mut m = ModifierStates::new();
    // the key resolves case-insensitively, but the state is recorded under
    // the raw name and the alias fires only on the exact short form
    let (key, new_state) = m.plan_toggle(b"ALT").unwrap();
    assert_eq!(key, ModKey::Alt);
    m.commit_toggle(b"ALT", new_state);
    assert!(m.get(b"ALT"));
    assert!(!m.get(b"alt"));
    assert!(!m.get(b"option"));
}

#[test]
fn modifiers_pressed_and_clear() {
    let mut m = ModifierStates::new();
    m.commit_toggle(b"shift", true);
    m.commit_toggle(b"cmd", true);
    m.commit_toggle(b"shift", false);
    let pressed = m.pressed();
    let names: Vec<String> = pressed
        .into_iter()
        .map(|k| String::from_utf8(k).unwrap())
        .collect();
    assert_eq!(names, vec!["cmd".to_string(), "meta".to_string()]);
    m.clear();
    assert!(!m.get(b"cmd"));
    assert!(!m.get(b"meta"));
    assert!(m.pressed().is_empty());
}

#[test]
fn modifiers_report_messages() {
    assert_eq!(
        String::from_utf8(toggle_message(b"shift", true)).unwrap(),
        "Modifier key 'shift' toggled to true"
    );
    assert_eq!(
        String::from_utf8(toggle_message(b"cmd", false)).unwrap(),
        "Modifier key 'cmd' toggled to false"
    );
    assert_eq!(
        String::from_utf8(cleared_message()).unwrap(),
        "All modifier keys cleared"
    );
}

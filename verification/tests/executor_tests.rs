use deskremote::dispatch::Action;
use deskremote::executor::{failure_message, plan_action, worker_failure_message, NativeOp};
use deskremote::keys::{MouseButton, NamedKey};

fn msg_of(r: Result<(Vec<NativeOp>, Vec<u8>), Vec<u8>>) -> String {
    String::from_utf8(r.unwrap().1).unwrap()
}

#[test]
fn executor_media_and_volume_keys() {
    let (ops, msg) = plan_action(&Action::PlayPause).unwrap();
    assert_eq!(ops, vec![NativeOp::KeyPress(NamedKey::Space)]);
    assert_eq!(String::from_utf8(msg).unwrap(), "Play/pause command sent");

    let (ops, _) = plan_action(&Action::MediaPrevious).unwrap();
    assert_eq!(ops, vec![NativeOp::TapChar(b'j')]);
    let (ops, _) = plan_action(&Action::MediaNext).unwrap();
    assert_eq!(ops, vec![NativeOp::TapChar(b'l')]);
    let (ops, _) = plan_action(&Action::MediaStop).unwrap();
    assert_eq!(ops, vec![NativeOp::TapChar(b'k')]);

    let (ops, _) = plan_action(&Action::VolumeUp).unwrap();
    assert_eq!(ops, vec![NativeOp::KeyPress(NamedKey::VolumeUp)]);
    let (ops, _) = plan_action(&Action::BrightnessUp).unwrap();
    assert_eq!(ops, vec![NativeOp::KeyPress(NamedKey::F2)]);
    let (ops, _) = plan_action(&Action::BrightnessDown).unwrap();
    assert_eq!(ops, vec![NativeOp::KeyPress(NamedKey::F1)]);
}

#[test]
fn executor_volume_set_message_has_the_value() {
    let (ops, msg) = plan_action(&Action::VolumeSet(44)).unwrap();
    assert_eq!(ops, vec![NativeOp::SetVolume(44)]);
    assert_eq!(String::from_utf8(msg).unwrap(), "Volume set to 44%");
    assert_eq!(
        msg_of(plan_action(&Action::BrightnessSet(7))),
        "Brightness set to 7%"
    );
}

#[test]
fn executor_send_key_paths() {
    let (ops, msg) = plan_action(&Action::SendKey(b"space".to_vec())).unwrap();
    assert_eq!(ops, vec![NativeOp::KeyPress(NamedKey::Space)]);
    assert_eq!(
        String::from_utf8(msg).unwrap(),
        "Key 'space' sent successfully"
    );

    let (ops, msg) = plan_action(&Action::SendKey(b"k".to_vec())).unwrap();
    assert_eq!(ops, vec![NativeOp::TypeText(b"k".to_vec())]);
    assert_eq!(String::from_utf8(msg).unwrap(), "Key 'k' sent successfully");

    let e = plan_action(&Action::SendKey(b"warp".to_vec())).unwrap_err();
    assert_eq!(String::from_utf8(e).unwrap(), "Unknown key: warp");
}

#[test]
fn executor_text_input_reports_length() {
    let (ops, msg) = plan_action(&Action::TextInput(b"hello".to_vec())).unwrap();
    assert_eq!(ops, vec![NativeOp::TypeText(b"hello".to_vec())]);
    assert_eq!(
        String::from_utf8(msg).unwrap(),
        "Text input successful (5 characters)"
    );
}

#[test]
fn executor_mouse_messages_carry_signed_deltas() {
    let (ops, msg) = plan_action(&Action::MouseMove(-3, 7)).unwrap();
    assert_eq!(ops, vec![NativeOp::MoveMouseRel(-3, 7)]);
    assert_eq!(String::from_utf8(msg).unwrap(), "Mouse moved by (-3, 7)");

    let (ops, msg) = plan_action(&Action::MouseClick(b"left".to_vec())).unwrap();
    assert_eq!(ops, vec![NativeOp::PressButton(MouseButton::Left)]);
    assert_eq!(String::from_utf8(msg).unwrap(), "Mouse left clicked");

    let e = plan_action(&Action::MouseClick(b"wheel".to_vec())).unwrap_err();
    assert_eq!(
        String::from_utf8(e).unwrap(),
        "Unsupported mouse button: wheel"
    );
}

#[test]
fn executor_scroll_splits_axes() {
    let (ops, msg) = plan_action(&Action::Scroll(3, -4)).unwrap();
    assert_eq!(ops, vec![NativeOp::ScrollH(3), NativeOp::ScrollV(-4)]);
    assert_eq!(String::from_utf8(msg).unwrap(), "Scrolled by (3, -4)");

    let (ops, _) = plan_action(&Action::Scroll(0, 5)).unwrap();
    assert_eq!(ops, vec![NativeOp::ScrollV(5)]);
    let (ops, _) = plan_action(&Action::Scroll(2, 0)).unwrap();
    assert_eq!(ops, vec![NativeOp::ScrollH(2)]);
    let (ops, _) = plan_action(&Action::Scroll(0, 0)).unwrap();
    assert_eq!(ops, Vec::<NativeOp>::new());
}

#[test]
fn executor_open_website_rejects_bad_schemes() {
    let e = plan_action(&Action::OpenWebsite(b"ftp://x".to_vec())).unwrap_err();
    assert_eq!(
        String::from_utf8(e).unwrap(),
        "Invalid URL: must start with http:// or https://"
    );
    // nothing is planned, so no process can be spawned
    let e2 = plan_action(&Action::OpenWebsite(b"example.com".to_vec())).unwrap_err();
    assert!(!e2.is_empty());
}

#[test]
fn executor_open_website_accepts_http_and_https() {
    let (ops, msg) = plan_action(&Action::OpenWebsite(b"http://example.com".to_vec())).unwrap();
    assert_eq!(ops, vec![NativeOp::OpenUrl(b"http://example.com".to_vec())]);
    assert_eq!(
        String::from_utf8(msg).unwrap(),
        "Opened website: http://example.com"
    );
    let (ops, _) = plan_action(&Action::OpenWebsite(b"https://a".to_vec())).unwrap();
    assert_eq!(ops, vec![NativeOp::OpenUrl(b"https://a".to_vec())]);
}

#[test]
fn executor_extreme_deltas_format_correctly() {
    let (_, msg) = plan_action(&Action::MouseMove(i64::MIN, i64::MAX)).unwrap();
    assert_eq!(
        String::from_utf8(msg).unwrap(),
        "Mouse moved by (-9223372036854775808, 9223372036854775807)"
    );
}

#[test]
fn executor_failure_messages_carry_the_operation_wording() {
    let m = failure_message(&Action::PlayPause, b"NoPermission");
    assert_eq!(
        String::from_utf8(m).unwrap(),
        "Failed to send play/pause key: NoPermission"
    );
    let m = failure_message(&Action::SendKey(b"f5".to_vec()), b"Busy");
    assert_eq!(
        String::from_utf8(m).unwrap(),
        "Failed to press key 'f5': Busy"
    );
    let m = failure_message(&Action::MouseClick(b"left".to_vec()), b"NoDisplay");
    assert_eq!(
        String::from_utf8(m).unwrap(),
        "Failed to click mouse button 'left': NoDisplay"
    );
    let m = failure_message(&Action::TextInput(b"hi".to_vec()), b"Fault");
    assert_eq!(String::from_utf8(m).unwrap(), "Text input failed: Fault");
    let m = failure_message(&Action::VolumeSet(3), b"no amixer");
    assert_eq!(String::from_utf8(m).unwrap(), "Failed to set volume: no amixer");
    let m = failure_message(&Action::BrightnessUp, b"E");
    assert_eq!(String::from_utf8(m).unwrap(), "Failed to send F2 key: E");
}

#[test]
fn executor_worker_failure_messages_name_the_operation() {
    assert_eq!(
        String::from_utf8(worker_failure_message(&Action::PlayPause)).unwrap(),
        "Play/pause operation failed"
    );
    assert_eq!(
        String::from_utf8(worker_failure_message(&Action::MediaPrevious)).unwrap(),
        "Media previous operation failed"
    );
    assert_eq!(
        String::from_utf8(worker_failure_message(&Action::SendKey(b"a".to_vec()))).unwrap(),
        "Send key operation failed"
    );
    assert_eq!(
        String::from_utf8(worker_failure_message(&Action::TextInput(b"a".to_vec()))).unwrap(),
        "Text input operation failed"
    );
}

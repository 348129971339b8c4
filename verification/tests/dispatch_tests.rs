use deskremote::command::{Command, Member, Payload, Scalar};
use deskremote::dispatch::{
    invalid_frame_response, plan_command, plan_frame, settle, timeout_response, Action, Plan,
};
use deskremote::wire::{Reply, Status};

fn obj(fields: Vec<(&str, Scalar)>) -> Option<Payload> {
    Some(Payload::Object(
        fields
            .into_iter()
            .map(|(k, v)| Member { key: k.as_bytes().to_vec(), val: v })
            .collect(),
    ))
}

fn cmd(id: Option<&str>, name: &str, data: Option<Payload>) -> Command {
    Command {
        id: id.map(|s| s.as_bytes().to_vec()),
        name: name.as_bytes().to_vec(),
        data,
    }
}

fn s(v: &str) -> Scalar {
    Scalar::Str(v.as_bytes().to_vec())
}

#[test]
fn dispatch_id_echo_on_known_commands() {
    match plan_command(&cmd(Some("42"), "play_pause", None)) {
        Plan::Invoke(id, Action::PlayPause) => assert_eq!(id, Some(b"42".to_vec())),
        other => panic!("unexpected plan: {:?}", other),
    }
    match plan_command(&cmd(None, "volume_up", None)) {
        Plan::Invoke(id, Action::VolumeUp) => assert_eq!(id, None),
        other => panic!("unexpected plan: {:?}", other),
    }
    match plan_command(&cmd(
        Some("abc"),
        "volume_set",
        obj(vec![("value", Scalar::Int(30))]),
    )) {
        Plan::Invoke(id, Action::VolumeSet(30)) => assert_eq!(id, Some(b"abc".to_vec())),
        other => panic!("unexpected plan: {:?}", other),
    }
}

#[test]
fn dispatch_id_echo_on_errors_too() {
    match plan_command(&cmd(Some("7"), "volume_set", None)) {
        Plan::Respond(r) => {
            assert_eq!(r.id, Some(b"7".to_vec()));
            assert_eq!(r.status, Status::Error);
        }
        other => panic!("unexpected plan: {:?}", other),
    }
}

#[test]
fn dispatch_unknown_command_names_the_command() {
    match plan_command(&cmd(Some("1"), "frobnicate", None)) {
        Plan::Respond(r) => {
            assert_eq!(r.status, Status::Error);
            let msg = String::from_utf8(r.message).unwrap();
            assert!(msg.contains("Unknown command: frobnicate"), "{}", msg);
            assert_eq!(r.id, Some(b"1".to_vec()));
        }
        other => panic!("unexpected plan: {:?}", other),
    }
}

#[test]
fn dispatch_text_input_empty_invokes_nothing() {
    let mut native_calls = 0;
    let plan = plan_command(&cmd(Some("x"), "text_input", obj(vec![("text", s(""))])));
    match plan {
        Plan::Respond(r) => {
            assert_eq!(r.status, Status::Success);
            assert_eq!(r.message, b"Empty text input ignored".to_vec());
        }
        Plan::Invoke(_, _) => {
            native_calls += 1;
        }
    }
    assert_eq!(native_calls, 0);
}

#[test]
fn dispatch_text_input_over_limit_invokes_nothing() {
    let mut native_calls = 0;
    let long = "a".repeat(1001);
    let plan = plan_command(&cmd(
        Some("x"),
        "text_input",
        obj(vec![("text", s(&long))]),
    ));
    match plan {
        Plan::Respond(r) => {
            assert_eq!(r.status, Status::Error);
            let msg = String::from_utf8(r.message).unwrap();
            assert!(msg.contains("max 1000 characters"), "{}", msg);
        }
        Plan::Invoke(_, _) => {
            native_calls += 1;
        }
    }
    assert_eq!(native_calls, 0);
}

#[test]
fn dispatch_text_input_at_limit_invokes() {
    let exactly = "a".repeat(1000);
    match plan_command(&cmd(None, "text_input", obj(vec![("text", s(&exactly))]))) {
        Plan::Invoke(None, Action::TextInput(t)) => assert_eq!(t.len(), 1000),
        other => panic!("unexpected plan: {:?}", other),
    }
}

#[test]
fn dispatch_text_input_counts_characters_not_bytes() {
    // 999 ASCII letters and one two-byte character: 1000 characters.
    let mut text = "a".repeat(999);
    text.push('é');
    match plan_command(&cmd(None, "text_input", obj(vec![("text", s(&text))]))) {
        Plan::Invoke(None, Action::TextInput(_)) => {}
        other => panic!("unexpected plan: {:?}", other),
    }
}

#[test]
fn dispatch_volume_set_never_rejected_for_range() {
    match plan_command(&cmd(None, "volume_set", obj(vec![("value", Scalar::Int(300))]))) {
        Plan::Invoke(None, Action::VolumeSet(v)) => assert_eq!(v, 44), // 300 mod 256
        other => panic!("unexpected plan: {:?}", other),
    }
    match plan_command(&cmd(None, "volume_set", obj(vec![("value", Scalar::Int(150))]))) {
        Plan::Invoke(None, Action::VolumeSet(150)) => {}
        other => panic!("unexpected plan: {:?}", other),
    }
}

#[test]
fn dispatch_volume_set_field_errors() {
    match plan_command(&cmd(None, "volume_set", obj(vec![]))) {
        Plan::Respond(r) => {
            assert_eq!(r.message, b"Missing or invalid 'value' parameter".to_vec())
        }
        other => panic!("unexpected plan: {:?}", other),
    }
    match plan_command(&cmd(None, "volume_set", obj(vec![("value", Scalar::Int(-5))]))) {
        Plan::Respond(r) => {
            assert_eq!(r.message, b"Missing or invalid 'value' parameter".to_vec())
        }
        other => panic!("unexpected plan: {:?}", other),
    }
    match plan_command(&cmd(None, "volume_set", obj(vec![("value", s("50"))]))) {
        Plan::Respond(r) => {
            assert_eq!(r.message, b"Missing or invalid 'value' parameter".to_vec())
        }
        other => panic!("unexpected plan: {:?}", other),
    }
    match plan_command(&cmd(None, "volume_set", None)) {
        Plan::Respond(r) => {
            assert_eq!(r.message, b"Missing data for volume_set command".to_vec())
        }
        other => panic!("unexpected plan: {:?}", other),
    }
}

#[test]
fn dispatch_brightness_set_mirrors_volume_set() {
    match plan_command(&cmd(None, "brightness_set", obj(vec![("value", Scalar::Int(80))]))) {
        Plan::Invoke(None, Action::BrightnessSet(80)) => {}
        other => panic!("unexpected plan: {:?}", other),
    }
    match plan_command(&cmd(None, "brightness_set", None)) {
        Plan::Respond(r) => {
            assert_eq!(r.message, b"Missing data for brightness_set command".to_vec())
        }
        other => panic!("unexpected plan: {:?}", other),
    }
}

#[test]
fn dispatch_send_key_extracts_key() {
    match plan_command(&cmd(None, "send_key", obj(vec![("key", s("space"))]))) {
        Plan::Invoke(None, Action::SendKey(k)) => assert_eq!(k, b"space".to_vec()),
        other => panic!("unexpected plan: {:?}", other),
    }
    match plan_command(&cmd(None, "send_key", obj(vec![]))) {
        Plan::Respond(r) => assert_eq!(r.message, b"Missing 'key' parameter".to_vec()),
        other => panic!("unexpected plan: {:?}", other),
    }
}

#[test]
fn dispatch_mouse_move_requires_both_deltas() {
    match plan_command(&cmd(
        Some("m1"),
        "mouse_move",
        obj(vec![("deltaX", Scalar::Int(5)), ("deltaY", Scalar::Int(-2))]),
    )) {
        Plan::Invoke(id, Action::MouseMove(5, -2)) => assert_eq!(id, Some(b"m1".to_vec())),
        other => panic!("unexpected plan: {:?}", other),
    }
    // an absent or wrong-typed required field is a descriptive error, and
    // nothing is invoked
    match plan_command(&cmd(Some("m2"), "mouse_move", obj(vec![("deltaX", Scalar::Int(5))]))) {
        Plan::Respond(r) => {
            assert_eq!(r.id, Some(b"m2".to_vec()));
            assert_eq!(r.status, Status::Error);
            assert_eq!(r.message, b"Missing or invalid 'deltaY' parameter".to_vec());
        }
        other => panic!("unexpected plan: {:?}", other),
    }
    match plan_command(&cmd(None, "mouse_move", obj(vec![]))) {
        Plan::Respond(r) => {
            assert_eq!(r.message, b"Missing or invalid 'deltaX' parameter".to_vec())
        }
        other => panic!("unexpected plan: {:?}", other),
    }
    match plan_command(&cmd(None, "mouse_move", obj(vec![("deltaX", s("5"))]))) {
        Plan::Respond(r) => {
            assert_eq!(r.message, b"Missing or invalid 'deltaX' parameter".to_vec())
        }
        other => panic!("unexpected plan: {:?}", other),
    }
    match plan_command(&cmd(None, "mouse_move", None)) {
        Plan::Respond(r) => {
            assert_eq!(r.message, b"Missing data for mouse_move command".to_vec())
        }
        other => panic!("unexpected plan: {:?}", other),
    }
}

#[test]
fn dispatch_scroll_requires_both_deltas() {
    match plan_command(&cmd(
        None,
        "scroll",
        obj(vec![("deltaX", Scalar::Int(-2)), ("deltaY", Scalar::Int(9))]),
    )) {
        Plan::Invoke(None, Action::Scroll(-2, 9)) => {}
        other => panic!("unexpected plan: {:?}", other),
    }
    match plan_command(&cmd(None, "scroll", obj(vec![("deltaY", Scalar::Int(9))]))) {
        Plan::Respond(r) => {
            assert_eq!(r.message, b"Missing or invalid 'deltaX' parameter".to_vec())
        }
        other => panic!("unexpected plan: {:?}", other),
    }
    match plan_command(&cmd(None, "scroll", obj(vec![("deltaX", Scalar::Int(9))]))) {
        Plan::Respond(r) => {
            assert_eq!(r.message, b"Missing or invalid 'deltaY' parameter".to_vec())
        }
        other => panic!("unexpected plan: {:?}", other),
    }
}

#[test]
fn dispatch_mouse_click_needs_button() {
    match plan_command(&cmd(None, "mouse_click", obj(vec![("button", s("left"))]))) {
        Plan::Invoke(None, Action::MouseClick(b)) => assert_eq!(b, b"left".to_vec()),
        other => panic!("unexpected plan: {:?}", other),
    }
    match plan_command(&cmd(None, "mouse_click", obj(vec![]))) {
        Plan::Respond(r) => assert_eq!(r.message, b"Missing 'button' parameter".to_vec()),
        other => panic!("unexpected plan: {:?}", other),
    }
}

#[test]
fn dispatch_open_website_extracts_url() {
    match plan_command(&cmd(None, "open_website", obj(vec![("url", s("ftp://x"))]))) {
        Plan::Invoke(None, Action::OpenWebsite(u)) => assert_eq!(u, b"ftp://x".to_vec()),
        other => panic!("unexpected plan: {:?}", other),
    }
    match plan_command(&cmd(None, "open_website", obj(vec![]))) {
        Plan::Respond(r) => assert_eq!(r.message, b"Missing 'url' parameter".to_vec()),
        other => panic!("unexpected plan: {:?}", other),
    }
}

#[test]
fn settle_passes_reply_through() {
    let r = settle(
        Some(b"9".to_vec()),
        Ok(Reply {
            status: Status::Success,
            message: b"Play/pause command sent".to_vec(),
        }),
    );
    assert_eq!(r.id, Some(b"9".to_vec()));
    assert_eq!(r.status, Status::Success);
    assert_eq!(r.message, b"Play/pause command sent".to_vec());

    let e = settle(None, Err(b"it broke".to_vec()));
    assert_eq!(e.id, None);
    assert_eq!(e.status, Status::Error);
    assert_eq!(e.message, b"it broke".to_vec());
}

#[test]
fn timeout_keeps_the_correlation_id() {
    let r = timeout_response(Some(b"t1".to_vec()));
    assert_eq!(r.id, Some(b"t1".to_vec()));
    assert_eq!(r.status, Status::Error);
    assert_eq!(r.message, b"Command timed out".to_vec());
}

#[test]
fn invalid_frame_has_null_id() {
    let r = invalid_frame_response();
    assert_eq!(r.id, None);
    assert_eq!(r.status, Status::Error);
    assert_eq!(r.message, b"Invalid command format".to_vec());
}

#[test]
fn dispatch_composite_fields_draw_the_field_error() {
    // a required field holding an array or object is of the wrong type
    match plan_command(&cmd(Some("c1"), "volume_set", obj(vec![("value", Scalar::Composite)]))) {
        Plan::Respond(r) => {
            assert_eq!(r.id, Some(b"c1".to_vec()));
            assert_eq!(r.message, b"Missing or invalid 'value' parameter".to_vec());
        }
        other => panic!("unexpected plan: {:?}", other),
    }
}

#[test]
fn dispatch_big_values_reach_the_executor() {
    match plan_command(&cmd(None, "volume_set", obj(vec![("value", Scalar::Big(u64::MAX))]))) {
        Plan::Invoke(None, Action::VolumeSet(v)) => assert_eq!(v, 255), // u64::MAX mod 256
        other => panic!("unexpected plan: {:?}", other),
    }
}

#[test]
fn plan_frame_runs_the_whole_inbound_path() {
    match plan_frame(br#"{"id":"7","command":"play_pause"}"#) {
        Plan::Invoke(id, Action::PlayPause) => assert_eq!(id, Some(b"7".to_vec())),
        other => panic!("unexpected plan: {:?}", other),
    }
    // arbitrary JSON below the payload flows through to the usual errors
    match plan_frame(br#"{"id":"n","command":"nope","data":{"x":[1,2]}}"#) {
        Plan::Respond(r) => {
            assert_eq!(r.id, Some(b"n".to_vec()));
            assert_eq!(r.message, b"Unknown command: nope".to_vec());
        }
        other => panic!("unexpected plan: {:?}", other),
    }
    match plan_frame(b"this is not json") {
        Plan::Respond(r) => {
            assert_eq!(r.id, None);
            assert_eq!(r.status, Status::Error);
            assert_eq!(r.message, b"Invalid command format".to_vec());
        }
        other => panic!("unexpected plan: {:?}", other),
    }
}

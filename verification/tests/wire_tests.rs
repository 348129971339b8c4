use deskremote::wire::{render_response, Reply, Response, Status};

#[test]
fn render_success_with_id() {
    let out = render_response(&Response {
        id: Some(b"1".to_vec()),
        status: Status::Success,
        message: b"ok".to_vec(),
    });
    assert_eq!(
        String::from_utf8(out).unwrap(),
        r#"{"id":"1","status":"success","message":"ok","data":null}"#
    );
}

#[test]
fn render_error_with_null_id() {
    let out = render_response(&Response {
        id: None,
        status: Status::Error,
        message: b"Invalid command format".to_vec(),
    });
    assert_eq!(
        String::from_utf8(out).unwrap(),
        r#"{"id":null,"status":"error","message":"Invalid command format","data":null}"#
    );
}

#[test]
fn render_info_status() {
    let out = render_response(&Response {
        id: None,
        status: Status::Info,
        message: b"ping".to_vec(),
    });
    assert_eq!(
        String::from_utf8(out).unwrap(),
        r#"{"id":null,"status":"info","message":"ping","data":null}"#
    );
}

#[test]
fn render_escapes_message_content() {
    let out = render_response(&Response {
        id: Some(b"a\"b".to_vec()),
        status: Status::Error,
        message: b"line\nbreak\tand \\ \"quote\" \x01".to_vec(),
    });
    assert_eq!(
        String::from_utf8(out).unwrap(),
        "{\"id\":\"a\\\"b\",\"status\":\"error\",\"message\":\"line\\nbreak\\tand \\\\ \\\"quote\\\" \\u0001\",\"data\":null}"
    );
}

#[test]
fn render_agrees_with_a_json_parser() {
    // An outside JSON parser reads back exactly what was rendered.
    let out = render_response(&Response {
        id: Some(b"x7".to_vec()),
        status: Status::Success,
        message: "weird msg: \" \\ \n é 😀".as_bytes().to_vec(),
    });
    let v: serde_json::Value = serde_json::from_slice(&out).unwrap();
    assert_eq!(v["id"], "x7");
    assert_eq!(v["status"], "success");
    assert_eq!(v["message"], "weird msg: \" \\ \n é 😀");
    assert!(v["data"].is_null());
}

#[test]
fn reply_converts_to_command_response() {
    let c = Reply {
        status: Status::Info,
        message: b"WebSocket server is already running".to_vec(),
    }
    .to_command_response();
    assert_eq!(c.status, "info");
    assert_eq!(c.message, "WebSocket server is already running");
}

#[test]
fn library_reports_accessibility_optimistically() {
    assert!(deskremote::check_accessibility_permissions());
}

use deskremote::server::{get_connection_info, session_step, ServerControl, SessionEvent, SessionState};
use deskremote::wire::Status;

#[test]
fn server_start_defaults_to_8080() {
    let mut c = ServerControl::new();
    let r = c.start(None);
    assert_eq!(r.status, Status::Success);
    assert_eq!(
        String::from_utf8(r.message).unwrap(),
        "WebSocket server started on port 8080 with frontend"
    );
    assert!(c.running);
    assert_eq!(c.port, 8080);
}

#[test]
fn server_start_twice_reports_info() {
    let mut c = ServerControl::new();
    let _ = c.start(Some(9001));
    let r = c.start(Some(9002));
    assert_eq!(r.status, Status::Info);
    assert_eq!(
        String::from_utf8(r.message).unwrap(),
        "WebSocket server is already running"
    );
    assert_eq!(c.port, 9001);
}

#[test]
fn server_stop_and_stop_again() {
    let mut c = ServerControl::new();
    let _ = c.start(None);
    let r = c.stop();
    assert_eq!(r.status, Status::Success);
    assert_eq!(
        String::from_utf8(r.message).unwrap(),
        "WebSocket server and frontend stopped"
    );
    let again = c.stop();
    assert_eq!(again.status, Status::Info);
    assert_eq!(
        String::from_utf8(again.message).unwrap(),
        "WebSocket server is not running"
    );
}

#[test]
fn server_status_reports_port_zero_when_stopped() {
    let mut c = ServerControl::new();
    let st = c.status(0, None);
    assert!(!st.running);
    assert_eq!(st.port, 0);
    let _ = c.start(Some(9005));
    let st2 = c.status(3, Some("10.0.0.5".to_string()));
    assert!(st2.running);
    assert_eq!(st2.port, 9005);
    assert_eq!(st2.clients, 3);
    assert_eq!(st2.local_ip.as_deref(), Some("10.0.0.5"));
}

#[test]
fn server_broadcast_needs_a_running_server() {
    let mut c = ServerControl::new();
    let e = c.broadcast_permit().unwrap_err();
    assert_eq!(
        String::from_utf8(e).unwrap(),
        "WebSocket server is not running"
    );
    let _ = c.start(None);
    let ok = c.broadcast_permit().unwrap();
    assert_eq!(ok.status, Status::Success);
    assert_eq!(
        String::from_utf8(ok.message).unwrap(),
        "Message broadcasted to all clients"
    );
}

#[test]
fn session_lifecycle() {
    let s = SessionState::Connecting;
    let s = session_step(s, SessionEvent::HandshakeOk);
    assert_eq!(s, SessionState::Open);
    let s = session_step(s, SessionEvent::FrameHandled);
    assert_eq!(s, SessionState::Open);
    let s = session_step(s, SessionEvent::CloseFrame);
    assert_eq!(s, SessionState::Closing);
    let s = session_step(s, SessionEvent::CleanedUp);
    assert_eq!(s, SessionState::Closed);
}

#[test]
fn session_handshake_failure_closes() {
    assert_eq!(
        session_step(SessionState::Connecting, SessionEvent::HandshakeFailed),
        SessionState::Closed
    );
}

#[test]
fn session_errors_move_to_cleanup() {
    assert_eq!(
        session_step(SessionState::Open, SessionEvent::ReceiveError),
        SessionState::Closing
    );
    assert_eq!(
        session_step(SessionState::Open, SessionEvent::SendFailed),
        SessionState::Closing
    );
}

#[test]
fn session_closed_is_absorbing() {
    let events = [
        SessionEvent::HandshakeOk,
        SessionEvent::HandshakeFailed,
        SessionEvent::FrameHandled,
        SessionEvent::CloseFrame,
        SessionEvent::ReceiveError,
        SessionEvent::SendFailed,
        SessionEvent::CleanedUp,
    ];
    for e in events {
        assert_eq!(session_step(SessionState::Closed, e), SessionState::Closed);
    }
}

#[test]
fn connection_info_lists_ports_and_urls() {
    let info = String::from_utf8(get_connection_info(b"192.168.1.7")).unwrap();
    assert_eq!(
        info,
        "{\"local_ip\":\"192.168.1.7\",\"web_app_port\":3000,\"web_app_url\":\"http://192.168.1.7:3000/?ip=192.168.1.7\",\"websocket_port\":8080,\"websocket_url\":\"ws://192.168.1.7:8080\"}"
    );
    // it is well-formed JSON with the expected fields
    let v: serde_json::Value = serde_json::from_str(&info).unwrap();
    assert_eq!(v["websocket_port"], 8080);
    assert_eq!(v["web_app_url"], "http://192.168.1.7:3000/?ip=192.168.1.7");
}

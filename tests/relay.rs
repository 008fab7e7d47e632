use ws_relay::connection::{Connection, ConnectionEvent, ConnectionState, Frame};
use ws_relay::listener::{Listener, ListenerAction, ListenerEvent, ListenerState, LISTEN_ADDR};
use ws_relay::message::{forwarded_payload, message_kind, IncomingMessage, MessageKind, RELAY_EVENT};

fn message(action: &str) -> IncomingMessage {
    IncomingMessage { action: action.to_string(), key: None, value: None }
}

fn text_frame(text: &str, decoded: Option<IncomingMessage>) -> ConnectionEvent {
    ConnectionEvent::Received(Frame::Text { text: text.to_string(), message: decoded })
}

#[test]
fn add_entry_frame_is_forwarded_verbatim() {
    let raw = r#"{"action":"addEntry","key":"k1","value":{"x":1}}"#;
    let mut inner = serde_json::Map::new();
    inner.insert("x".to_string(), serde_json::Value::from(1));
    let decoded = IncomingMessage {
        action: "addEntry".to_string(),
        key: Some("k1".to_string()),
        value: Some(serde_json::Value::Object(inner)),
    };
    let mut conn = Connection::new();
    let out = conn.on_events(&vec![text_frame(raw, Some(decoded))]);
    assert_eq!(out, vec![raw.to_string()]);
    assert_eq!(RELAY_EVENT, "ws-to-webview");
    assert!(conn.is_open());
}

#[test]
fn set_local_storage_frame_is_forwarded_verbatim() {
    let raw = r#"{"action":"setLocalStorage","key":"theme","value":"dark"}"#;
    let mut conn = Connection::new();
    let out = conn.on_event(&text_frame(raw, Some(message("setLocalStorage"))));
    assert_eq!(out, Some(raw.to_string()));
    assert_eq!(conn.state, ConnectionState::Open);
}

#[test]
fn unknown_action_is_ignored() {
    let raw = r#"{"action":"noop"}"#;
    let mut conn = Connection::new();
    let out = conn.on_event(&text_frame(raw, Some(message("noop"))));
    assert_eq!(out, None);
    assert!(conn.is_open());
}

#[test]
fn action_tags_are_case_sensitive() {
    assert_eq!(message_kind(&"addEntry".to_string()), Some(MessageKind::AddEntry));
    assert_eq!(message_kind(&"setLocalStorage".to_string()), Some(MessageKind::SetLocalStorage));
    assert_eq!(message_kind(&"AddEntry".to_string()), None);
    assert_eq!(message_kind(&"addEntry ".to_string()), None);
    assert_eq!(message_kind(&"".to_string()), None);
}

#[test]
fn undecodable_text_keeps_connection_open() {
    let valid = r#"{"action":"addEntry"}"#;
    let mut conn = Connection::new();
    let out = conn.on_events(&vec![
        text_frame("hello", None),
        text_frame(valid, Some(message("addEntry"))),
    ]);
    assert_eq!(out, vec![valid.to_string()]);
    assert!(conn.is_open());
}

#[test]
fn frame_without_action_is_ignored() {
    let text = "{\"key\":\"k1\"}".to_string();
    assert_eq!(forwarded_payload(&text, &None), None);
}

#[test]
fn payload_is_the_raw_text_not_a_reencoding() {
    let raw = "{ \"action\" : \"addEntry\", \"extra\": [1, 2] }".to_string();
    let out = forwarded_payload(&raw, &Some(message("addEntry")));
    assert_eq!(out, Some(raw.clone()));
}

#[test]
fn non_text_frames_are_ignored() {
    let mut conn = Connection::new();
    let out = conn.on_events(&vec![
        ConnectionEvent::Received(Frame::Binary),
        ConnectionEvent::Received(Frame::Ping),
        ConnectionEvent::Received(Frame::Pong),
        ConnectionEvent::Received(Frame::Close),
    ]);
    assert!(out.is_empty());
    assert!(conn.is_open());
}

#[test]
fn frames_are_forwarded_in_order_received() {
    let a = r#"{"action":"addEntry","key":"a"}"#;
    let b = r#"{"action":"setLocalStorage","key":"b"}"#;
    let c = r#"{"action":"addEntry","key":"c"}"#;
    let mut conn = Connection::new();
    let out = conn.on_events(&vec![
        text_frame(a, Some(message("addEntry"))),
        text_frame(r#"{"action":"other"}"#, Some(message("other"))),
        text_frame(b, Some(message("setLocalStorage"))),
        ConnectionEvent::Received(Frame::Binary),
        text_frame("not json", None),
        text_frame(c, Some(message("addEntry"))),
    ]);
    assert_eq!(out, vec![a.to_string(), b.to_string(), c.to_string()]);
}

#[test]
fn failed_handshake_forwards_nothing() {
    let mut conn = Connection::new();
    let out = conn.on_events(&vec![
        ConnectionEvent::HandshakeFailed,
        text_frame(r#"{"action":"addEntry"}"#, Some(message("addEntry"))),
    ]);
    assert!(out.is_empty());
    assert_eq!(conn.state, ConnectionState::Closed);
    assert!(!conn.is_open());
}

#[test]
fn read_error_closes_connection() {
    let mut conn = Connection::new();
    assert_eq!(conn.on_event(&ConnectionEvent::ReadFailed), None);
    assert!(!conn.is_open());
    let later = conn.on_event(&text_frame(r#"{"action":"addEntry"}"#, Some(message("addEntry"))));
    assert_eq!(later, None);
}

#[test]
fn stream_end_closes_connection() {
    let mut conn = Connection::new();
    assert_eq!(conn.on_event(&ConnectionEvent::StreamEnded), None);
    assert_eq!(conn.state, ConnectionState::Closed);
}

#[test]
fn closing_one_connection_leaves_another_relaying() {
    let raw = r#"{"action":"addEntry","key":"m"}"#;
    let mut n = Connection::new();
    let mut m = Connection::new();
    assert_eq!(n.on_event(&ConnectionEvent::ReadFailed), None);
    assert!(!n.is_open());
    assert!(m.is_open());
    assert_eq!(m.on_event(&text_frame(raw, Some(message("addEntry")))), Some(raw.to_string()));
}

#[test]
fn listener_accepts_until_accept_fails() {
    let mut l = Listener::new();
    assert_eq!(l.state, ListenerState::Binding);
    assert_eq!(l.on_event(ListenerEvent::Bound), ListenerAction::AcceptNext);
    assert_eq!(l.on_event(ListenerEvent::Accepted), ListenerAction::SpawnRelay);
    assert_eq!(l.on_event(ListenerEvent::Accepted), ListenerAction::SpawnRelay);
    assert_eq!(l.state, ListenerState::Listening);
    assert_eq!(l.on_event(ListenerEvent::AcceptFailed), ListenerAction::Stop);
    assert_eq!(l.state, ListenerState::Stopped);
}

#[test]
fn bind_failure_aborts() {
    let mut l = Listener::new();
    assert_eq!(l.on_event(ListenerEvent::BindFailed), ListenerAction::Abort);
    assert_eq!(l.state, ListenerState::Stopped);
    assert_eq!(LISTEN_ADDR, "127.0.0.1:8422");
}

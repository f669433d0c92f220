use sshwarden::notifications::{
    build_ws_url, create_signalr_ping, handshake_request, idle_expired, is_handshake_bytes,
    is_handshake_response, parse_signalr_message, react_to_message, read_varint, signalr_frame,
    to_ws_scheme, HubMessage, HubReaction, NotificationOptions, ReconnectState, SyncEvent,
};

#[test]
fn build_ws_url_appends_hub_to_notifications_base() {
    let url = build_ws_url("https://example.com/notifications", "token");
    assert_eq!(url, "wss://example.com/notifications/hub?access_token=token");
}

#[test]
fn build_ws_url_uses_complete_hub_url() {
    let url = build_ws_url("wss://example.com/notifications/hub", "token");
    assert_eq!(url, "wss://example.com/notifications/hub?access_token=token");
}

#[test]
fn handshake_response_accepts_binary() {
    assert!(is_handshake_response(&HubMessage::Binary(
        Vec::from(b"{}\x1e".as_slice())
    )));
}

#[test]
fn signalr_ping_frame_is_messagepack_ping() {
    assert_eq!(create_signalr_ping(), vec![2, 0x91, 6]);
}

#[test]
fn ws_schemes_are_converted() {
    assert_eq!(to_ws_scheme("http://h/x"), "ws://h/x");
    assert_eq!(to_ws_scheme("ws://h"), "ws://h");
    assert_eq!(to_ws_scheme("h.example"), "wss://h.example");
    assert_eq!(
        build_ws_url("http://h/notifications/anonymous-hub///", "t"),
        "ws://h/notifications/anonymous-hub?access_token=t"
    );
}

#[test]
fn handshake_bytes_are_exact() {
    assert!(is_handshake_bytes(b"{}"));
    assert!(!is_handshake_bytes(b"{} "));
    assert!(!is_handshake_bytes(b"{}\x1e\x1e"));
    assert!(is_handshake_response(&HubMessage::Text("{}\u{1e}".to_string())));
    assert!(!is_handshake_response(&HubMessage::Pong));
    assert_eq!(handshake_request(), "{\"protocol\":\"messagepack\",\"version\":1}\u{1e}");
}

#[test]
fn varints_read_back() {
    assert_eq!(read_varint(&[0x05, 0xff]), Some((5, 1)));
    assert_eq!(read_varint(&[0x80, 0x01]), Some((128, 2)));
    assert_eq!(read_varint(&[0xff, 0xff, 0x03]), Some((65535, 3)));
    assert_eq!(read_varint(&[0x80]), None);
    assert_eq!(read_varint(&[0x80; 10]), None);
    let payload = vec![7u8; 300];
    let frame = signalr_frame(&payload);
    assert_eq!(&frame[..2], &[0xac, 0x02]);
    assert_eq!(read_varint(&frame), Some((300, 2)));
}

fn invocation_frame(update_type: u8) -> Vec<u8> {
    // [1, {}, nil, "x", [{"Type": t}]]
    let payload = vec![
        0x95, 0x01, 0x80, 0xc0, 0xa1, b'x', 0x91, 0x81, 0xa4, b'T', b'y', b'p', b'e', update_type,
    ];
    signalr_frame(&payload)
}

#[test]
fn invocations_report_events() {
    assert_eq!(parse_signalr_message(&invocation_frame(1)), Some(SyncEvent::CipherChanged));
    assert_eq!(parse_signalr_message(&invocation_frame(11)), Some(SyncEvent::LogOut));
    assert_eq!(parse_signalr_message(&invocation_frame(7)), None);
    assert_eq!(parse_signalr_message(&create_signalr_ping()), None);
    let mut truncated = invocation_frame(1);
    truncated.pop();
    assert_eq!(parse_signalr_message(&truncated), None);
}

#[test]
fn messages_get_their_reactions() {
    match react_to_message(&HubMessage::Binary(invocation_frame(0))) {
        (HubReaction::Report(SyncEvent::CipherChanged), true) => {}
        other => panic!("unexpected {other:?}"),
    }
    match react_to_message(&HubMessage::Text("{\"type\": 6}\u{1e}".to_string())) {
        (HubReaction::SendText(t), true) => assert_eq!(t, "{\"type\":6}\u{1e}"),
        other => panic!("unexpected {other:?}"),
    }
    assert!(matches!(react_to_message(&HubMessage::Close), (HubReaction::Reconnect, false)));
    assert!(matches!(react_to_message(&HubMessage::Ping(vec![1])), (HubReaction::SendPong(d), true) if d == vec![1]));
}

#[test]
fn reconnects_back_off_and_fall_back() {
    let options = NotificationOptions::default();
    let mut st = ReconnectState::new();
    let s1 = st.connection_lost(1_000, &options);
    assert_eq!(s1.wait, 1);
    assert!(!s1.emit_fallback);
    let s2 = st.connection_lost(2_000, &options);
    assert_eq!(s2.wait, 2);
    let s3 = st.connection_lost(3_000, &options);
    assert_eq!(s3.wait, 4);
    assert!(s3.emit_fallback);
    let s4 = st.connection_lost(4_000, &options);
    assert!(!s4.emit_fallback);
    let s5 = st.connection_lost(303_000, &options);
    assert!(s5.emit_fallback);
    for _ in 0..10 {
        st.connection_lost(400_000, &options);
    }
    assert_eq!(st.backoff, 60);
    st.connected();
    assert_eq!(st.backoff, 1);
    assert_eq!(st.failed_attempts, 0);
}

#[test]
fn idle_timeout_is_strict() {
    assert!(!idle_expired(0, 90_000, 90));
    assert!(idle_expired(0, 90_001, 90));
    assert!(!idle_expired(5_000, 1_000, 90));
}

use p2p_signaling::connection::{
    can_send_to_room, state_after_connected_event, state_after_peer_activity, status_chip,
    ConnectionState,
};
use p2p_signaling::rooms::{
    append_room_path, build_host_signaling_url, build_signaling_url, is_local_server,
    is_valid_room, normalize_room_input, normalize_room_input_in_place, signaling_base,
};

#[test]
fn builds_wss_url_from_domain() {
    let url = build_signaling_url("p2p-signaling.yizhe.studio", "1234").unwrap();
    assert_eq!(url, "wss://p2p-signaling.yizhe.studio/rooms/1234");
}

#[test]
fn builds_ws_url_from_local_ip() {
    let url = build_signaling_url("127.0.0.1:8787", "1234").unwrap();
    assert_eq!(url, "ws://127.0.0.1:8787/rooms/1234");
}

#[test]
fn converts_https_to_wss() {
    let url = build_signaling_url("https://example.com/", "1234").unwrap();
    assert_eq!(url, "wss://example.com/rooms/1234");
}

#[test]
fn keeps_full_websocket_room_url() {
    let url = build_signaling_url("wss://example.com/rooms/5678", "1234").unwrap();
    assert_eq!(url, "wss://example.com/rooms/5678");
}

#[test]
fn builds_host_url_without_room() {
    let url = build_host_signaling_url("p2p-signaling.yizhe.studio").unwrap();
    assert_eq!(url, "wss://p2p-signaling.yizhe.studio/rooms/new");
}

#[test]
fn builds_local_host_url() {
    let url = build_host_signaling_url("127.0.0.1:8787").unwrap();
    assert_eq!(url, "ws://127.0.0.1:8787/rooms/new");
}

#[test]
fn room_input_is_digits_only_and_four_chars() {
    assert_eq!(normalize_room_input("A12-345"), "1234");
    assert!(is_valid_room("0000"));
    assert!(!is_valid_room("123"));
}

#[test]
fn chat_send_requires_peer_connection() {
    assert!(!can_send_to_room(ConnectionState::Idle, false));
    assert!(!can_send_to_room(ConnectionState::Connecting, true));
    assert!(!can_send_to_room(ConnectionState::Connected, true));
    assert!(!can_send_to_room(ConnectionState::Paired, true));
    assert!(can_send_to_room(ConnectionState::Direct, true));
    assert!(!can_send_to_room(ConnectionState::DirectFailed, true));
    assert!(!can_send_to_room(ConnectionState::Paired, false));
}

#[test]
fn connected_event_does_not_downgrade_paired_state() {
    assert_eq!(
        state_after_connected_event(ConnectionState::Connecting),
        ConnectionState::Connected
    );
    assert_eq!(
        state_after_connected_event(ConnectionState::Paired),
        ConnectionState::Paired
    );
    assert_eq!(
        state_after_connected_event(ConnectionState::Direct),
        ConnectionState::Direct
    );
}

#[test]
fn peer_activity_marks_active_session_as_paired() {
    assert_eq!(
        state_after_peer_activity(ConnectionState::Connected, true),
        ConnectionState::Paired
    );
    assert_eq!(
        state_after_peer_activity(ConnectionState::Connecting, true),
        ConnectionState::Paired
    );
    assert_eq!(
        state_after_peer_activity(ConnectionState::Connected, false),
        ConnectionState::Connected
    );
}

#[test]
fn typed_rooms_keep_what_is_kept() {
    let mut room = String::from(" 9a8b7c6d5 ");
    normalize_room_input_in_place(&mut room);
    assert_eq!(room, "9876");
    normalize_room_input_in_place(&mut room);
    assert_eq!(room, "9876");
    assert_eq!(normalize_room_input("１２３４"), "");
    assert!(!is_valid_room("12a4"));
    assert!(!is_valid_room("12345"));
}

#[test]
fn addresses_without_server_or_room_are_refused() {
    assert_eq!(
        build_host_signaling_url("  / ").unwrap_err(),
        "信令服务器地址不能为空"
    );
    assert_eq!(
        build_signaling_url("example.com", "12").unwrap_err(),
        "房间号需要 4 位数字"
    );
    assert_eq!(
        build_signaling_url("  ", "1234").unwrap_err(),
        "信令服务器地址不能为空"
    );
    assert_eq!(
        build_signaling_url(" example.com// ", " /1234/ ").unwrap(),
        "wss://example.com/rooms/1234"
    );
}

#[test]
fn servers_on_this_machine_are_not_encrypted() {
    assert!(is_local_server("localhost:1"));
    assert!(is_local_server("[::1]:8787"));
    assert!(!is_local_server("example.localhost"));
    assert_eq!(signaling_base("localhost:1").unwrap(), "ws://localhost:1");
    assert_eq!(signaling_base("http://a.b").unwrap(), "ws://a.b");
    assert_eq!(signaling_base("ws://a.b/").unwrap(), "ws://a.b");
    assert_eq!(append_room_path("wss://a.b", "0001"), "wss://a.b/rooms/0001");
}

#[test]
fn states_have_their_words() {
    assert_eq!(status_chip(ConnectionState::Idle), ("空闲", (122, 132, 146)));
    assert_eq!(
        status_chip(ConnectionState::DirectFailed),
        ("直连失败", (220, 94, 94))
    );
}

use naia_socket::address::SocketAddress;
use naia_socket::client::packet::Packet as ClientPacket;
use naia_socket::demo::{
    get_server_address, get_server_socket_config, get_shared_config, get_webrtc_address, is_ping, is_pong, ping_payload, pong_payload,
    server_reply, ClientAppState, IdleAction, PING_MSG, PONG_MSG,
};
use naia_socket::server::packet::Packet as ServerPacket;
use naia_socket::shared::LinkConditionerConfig;

#[test]
fn ping_and_pong_bytes() {
    assert!(is_ping(b"ping"));
    assert!(!is_ping(b"pong"));
    assert!(!is_ping(b"pin"));
    assert!(!is_ping(b"pingg"));
    assert!(is_pong(b"pong"));
    assert!(!is_pong(b"Pong"));
    assert_eq!(ping_payload(), PING_MSG.as_bytes());
    assert_eq!(pong_payload(), PONG_MSG.as_bytes());
}

#[test]
fn server_answers_ping_with_pong_to_sender() {
    let from = SocketAddress::v4(10, 1, 2, 3, 777);
    let reply = server_reply(&ServerPacket::new(from, b"ping".to_vec())).unwrap();
    assert_eq!(reply.address(), from);
    assert_eq!(reply.payload(), b"pong");
    assert!(server_reply(&ServerPacket::new(from, b"hello".to_vec())).is_none());
    assert!(server_reply(&ServerPacket::new(from, vec![])).is_none());
}

#[test]
fn client_counts_pongs_and_stops_after_ten() {
    let mut state = ClientAppState::new();
    assert_eq!(state.on_idle(false), IdleAction::Wait);
    assert_eq!(state.on_idle(true), IdleAction::ResetTimerAndPing);
    state.on_packet(&ClientPacket::new(b"ping".to_vec()));
    assert_eq!(state.message_count(), 0);
    for _ in 0..10 {
        state.on_packet(&ClientPacket::new(b"pong".to_vec()));
    }
    assert_eq!(state.message_count(), 10);
    assert_eq!(state.on_idle(true), IdleAction::ResetTimer);
    assert_eq!(state.on_idle(false), IdleAction::Wait);
}

#[test]
fn demo_addresses_and_config() {
    assert_eq!(get_server_address(), SocketAddress::V4 { ip: 0x7f00_0001, port: 14191 });
    let c = get_shared_config();
    assert_eq!(
        c.link_condition_config,
        Some(LinkConditionerConfig { incoming_latency: 170, incoming_jitter: 45 })
    );
    assert_eq!(c.rtc_endpoint_path, "rtc_session");
}

#[test]
fn demo_server_config() {
    assert_eq!(get_webrtc_address(), SocketAddress::V4 { ip: 0x7f00_0001, port: 14192 });
    let c = get_server_socket_config();
    assert_eq!(c.session_listen_addr, get_server_address());
    assert_eq!(c.webrtc_listen_addr, get_webrtc_address());
    assert_eq!(c.public_webrtc_addr, get_webrtc_address());
    assert_eq!(c.shared.rtc_endpoint_path, "rtc_session");
}

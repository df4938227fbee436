use naia_socket::address::SocketAddress;
use naia_socket::client::config::ClientSocketConfig;
use naia_socket::client::error::NaiaClientSocketError;
use naia_socket::client::miniquad::{fit_buffer, JsMessageQueues, JsObject};
use naia_socket::client::native::{receive_outcome, ReceiveBuffer, ReceiveOutcome, RECEIVE_BUFFER_SIZE};
use naia_socket::client::packet::Packet;
use naia_socket::client::packet_receiver_trait::PacketReceiverTrait;
use naia_socket::client::socket::Socket;
use naia_socket::client::wasm::{ClientSocket, PacketReceiverImpl};
use naia_socket::shared::{LinkConditionerConfig, SocketSharedConfig};

fn server() -> SocketAddress {
    SocketAddress::v4(127, 0, 0, 1, 14191)
}

#[test]
fn packet_gives_back_its_payload() {
    let p = Packet::new(vec![1, 2, 3]);
    assert_eq!(p.payload(), &[1, 2, 3]);
}

#[test]
fn native_receive_from_server_copies_prefix() {
    let buffer = [9u8, 8, 7, 6, 5];
    let res = receive_outcome(
        ReceiveOutcome::Received { len: 3, from: server() },
        &server(),
        &buffer,
    );
    assert_eq!(res, Ok(Some(Packet::new(vec![9, 8, 7]))));
}

#[test]
fn native_receive_from_other_endpoint_is_unknown_sender() {
    let buffer = [1u8, 2];
    let other = SocketAddress::v4(10, 0, 0, 2, 14191);
    let res = receive_outcome(ReceiveOutcome::Received { len: 2, from: other }, &server(), &buffer);
    assert_eq!(res, Err(NaiaClientSocketError::Message("Unknown sender.".to_string())));
}

#[test]
fn native_receive_port_matters() {
    let buffer = [1u8];
    let other = SocketAddress::v4(127, 0, 0, 1, 14192);
    let res = receive_outcome(ReceiveOutcome::Received { len: 1, from: other }, &server(), &buffer);
    assert!(matches!(res, Err(NaiaClientSocketError::Message(_))));
}

#[test]
fn native_receive_nothing_and_failure() {
    let buffer = [0u8; 4];
    assert_eq!(receive_outcome(ReceiveOutcome::WouldBlock, &server(), &buffer), Ok(None));
    assert_eq!(
        receive_outcome(ReceiveOutcome::Failed("reset".to_string()), &server(), &buffer),
        Err(NaiaClientSocketError::Wrapped("reset".to_string()))
    );
    assert_eq!(RECEIVE_BUFFER_SIZE, 1472);
}

#[test]
fn native_receive_empty_datagram() {
    let buffer = [0u8; 4];
    let res = receive_outcome(ReceiveOutcome::Received { len: 0, from: server() }, &server(), &buffer);
    assert_eq!(res, Ok(Some(Packet::new(vec![]))));
}

#[test]
fn wasm_receiver_is_first_in_first_out() {
    let mut r = PacketReceiverImpl::new();
    assert_eq!(r.receive(), Ok(None));
    r.push_message(Packet::new(vec![1]));
    r.push_message(Packet::new(vec![2]));
    assert_eq!(r.receive(), Ok(Some(Packet::new(vec![1]))));
    assert_eq!(r.receive(), Ok(Some(Packet::new(vec![2]))));
    assert_eq!(r.receive(), Ok(None));
}

#[test]
fn wasm_client_socket_hands_back_results_in_order() {
    let mut s = ClientSocket::new(server());
    assert_eq!(s.address(), server());
    assert_eq!(s.receive(), Ok(None));
    s.push_message(Err(NaiaClientSocketError::Message("closed".to_string())));
    s.push_message(Ok(Some(Packet::new(vec![7]))));
    s.push_message(Ok(None));
    assert_eq!(s.receive(), Err(NaiaClientSocketError::Message("closed".to_string())));
    assert_eq!(s.receive(), Ok(Some(Packet::new(vec![7]))));
    assert_eq!(s.receive(), Ok(None));
    assert_eq!(s.receive(), Ok(None));
}

#[test]
fn js_object_weak_names_the_same_object() {
    let o = JsObject(42);
    assert_eq!(o.weak().0, 42);
}

#[test]
fn fit_buffer_grows_with_zeros_and_shrinks() {
    let mut b = vec![1u8, 2, 3];
    fit_buffer(&mut b, 5);
    assert_eq!(b, vec![1, 2, 3, 0, 0]);
    fit_buffer(&mut b, 2);
    assert_eq!(b, vec![1, 2]);
    fit_buffer(&mut b, 2);
    assert_eq!(b, vec![1, 2]);
    fit_buffer(&mut b, 0);
    assert!(b.is_empty());
}

#[test]
fn js_queues_ignore_before_connect() {
    let mut q = JsMessageQueues::new();
    q.receive(vec![1]);
    q.error("early".to_string());
    assert_eq!(q.receive_next(), Ok(None));
    q.connect();
    q.error("late".to_string());
    q.receive(vec![2]);
    q.receive(vec![3]);
    assert_eq!(q.receive_next(), Ok(Some(vec![2])));
    assert_eq!(q.receive_next(), Ok(Some(vec![3])));
    assert_eq!(q.receive_next(), Err("late".to_string()));
    assert_eq!(q.receive_next(), Ok(None));
}

#[test]
fn js_queues_connect_clears() {
    let mut q = JsMessageQueues::new();
    q.connect();
    q.receive(vec![2]);
    q.error("e".to_string());
    q.connect();
    assert_eq!(q.receive_next(), Ok(None));
}

#[test]
fn receive_buffer_is_fixed_size() {
    let mut b = ReceiveBuffer::new();
    assert_eq!(b.bytes_mut().len(), RECEIVE_BUFFER_SIZE);
    b.bytes_mut()[..3].copy_from_slice(&[7, 8, 9]);
    let res = b.receive_outcome(ReceiveOutcome::Received { len: 2, from: server() }, &server());
    assert_eq!(res, Ok(Some(Packet::new(vec![7, 8]))));
    let full = b.receive_outcome(
        ReceiveOutcome::Received { len: RECEIVE_BUFFER_SIZE, from: server() },
        &server(),
    );
    match full {
        Ok(Some(p)) => assert_eq!(p.payload().len(), RECEIVE_BUFFER_SIZE),
        other => panic!("unexpected {:?}", other),
    }
}

#[test]
fn client_socket_state_connects_and_hands_out_io() {
    let mut s: Socket<u32, String> = Socket::new(SocketSharedConfig::new(None, None));
    assert!(!s.is_connected());
    s.connect(5, "r".to_string());
    assert!(s.is_connected());
    assert_eq!(*s.get_packet_sender(), 5);
    assert_eq!(s.get_packet_receiver(), "r");
    s.connect(6, "q".to_string());
    assert_eq!(*s.get_packet_sender(), 6);
    let mut once: Socket<u32, String> = Socket::new(SocketSharedConfig::new(None, None));
    once.connect_once(1, "a".to_string());
    assert!(once.is_connected());
    assert_eq!(*once.get_packet_sender(), 1);
    assert_eq!(once.get_packet_receiver(), "a");
    assert_eq!(s.config().rtc_endpoint_path, "rtc_session");
}

/// Drives a browser socket through a channel whose answers are given in
/// order; returns the payloads tried.
fn drive(s: &mut ClientSocket, answers: &[bool]) -> Vec<Vec<u8>> {
    let mut tried = Vec::new();
    let mut i = 0;
    while let Some(p) = s.next_attempt() {
        tried.push(p.payload().to_vec());
        let ok = answers[i];
        i += 1;
        s.report_outcome(ok);
    }
    assert_eq!(i, answers.len());
    tried
}

#[test]
fn browser_receive_resends_dropped_in_order_before_reading() {
    let mut s = ClientSocket::new(server());
    s.send(Packet::new(vec![1]));
    assert_eq!(drive(&mut s, &[false]), vec![vec![1]]);
    s.send(Packet::new(vec![2]));
    // 1 is tried again before 2; both refused.
    assert_eq!(drive(&mut s, &[false, false]), vec![vec![1], vec![2]]);
    s.push_message(Ok(Some(Packet::new(vec![9]))));
    s.begin_receive();
    // Each refused packet is sent once, in order, even when the first fails.
    assert_eq!(drive(&mut s, &[false, true, true]), vec![vec![1], vec![1], vec![2]]);
    assert_eq!(s.receive(), Ok(Some(Packet::new(vec![9]))));
    s.begin_receive();
    assert_eq!(drive(&mut s, &[]), Vec::<Vec<u8>>::new());
    assert_eq!(s.receive(), Ok(None));
}

#[test]
fn client_config_keeps_shared() {
    let shared = SocketSharedConfig::new(Some(LinkConditionerConfig::new(500, 1)), Some("path".to_string()));
    let c = ClientSocketConfig::new(shared);
    assert_eq!(c.shared.rtc_endpoint_path, "path");
    assert_eq!(
        c.shared.link_condition_config,
        Some(LinkConditionerConfig { incoming_latency: 500, incoming_jitter: 1 })
    );
}

#[test]
fn shared_config_defaults_path() {
    let shared = SocketSharedConfig::new(None, None);
    assert_eq!(shared.rtc_endpoint_path, "rtc_session");
    assert_eq!(shared.link_condition_config, None);
}

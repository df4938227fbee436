use crossbeam::channel::{unbounded, TryRecvError};
use naia_socket::address::SocketAddress;
use naia_socket::server::config::ServerSocketConfig;
use naia_socket::server::error::NaiaServerSocketError;
use naia_socket::server::packet::Packet;
use naia_socket::server::packet_receiver::{receive_outcome, PacketReceiver};
use naia_socket::server::packet_sender::{packet_channel, PacketSender};
use naia_socket::server::socket::Socket;
use naia_socket::server::udp::{after_send, next_step, Next, ReceiveStep, CLIENT_CHANNEL_SIZE, RECEIVE_BUFFER_SIZE};
use naia_socket::shared::SocketSharedConfig;

fn client() -> SocketAddress {
    SocketAddress::v4(192, 168, 1, 20, 5000)
}

#[test]
fn server_packet_gives_back_address_and_payload() {
    let p = Packet::new(client(), vec![4, 5]);
    assert_eq!(p.address(), client());
    assert_eq!(p.payload(), &[4, 5]);
}

#[test]
fn receive_outcome_maps_each_case() {
    let p = Packet::new(client(), vec![1]);
    assert_eq!(receive_outcome(Ok(Ok(p.clone()))), Ok(Some(p)));
    assert_eq!(
        receive_outcome(Ok(Err(NaiaServerSocketError::SendError(client())))),
        Ok(None)
    );
    assert_eq!(receive_outcome(Err(TryRecvError::Empty)), Ok(None));
    assert_eq!(receive_outcome(Err(TryRecvError::Disconnected)), Ok(None));
}

#[test]
fn receiver_takes_packets_from_channel_in_order() {
    let (s, r) = unbounded();
    let receiver = PacketReceiver::new(r);
    assert_eq!(receiver.receive(), Ok(None));
    s.send(Ok(Packet::new(client(), vec![1]))).unwrap();
    s.send(Err(NaiaServerSocketError::Wrapped("x".to_string()))).unwrap();
    s.send(Ok(Packet::new(client(), vec![2]))).unwrap();
    assert_eq!(receiver.receive(), Ok(Some(Packet::new(client(), vec![1]))));
    assert_eq!(receiver.receive(), Ok(None));
    assert_eq!(receiver.receive(), Ok(Some(Packet::new(client(), vec![2]))));
    drop(s);
    assert_eq!(receiver.receive(), Ok(None));
}

#[test]
fn sender_puts_packet_into_channel() {
    let (s, r) = unbounded();
    let sender = PacketSender::new(s);
    assert_eq!(sender.send(Packet::new(client(), vec![3])), Ok(()));
    assert_eq!(r.try_recv(), Ok(Packet::new(client(), vec![3])));
}

#[test]
fn packet_channel_carries_packets() {
    let (sender, r) = packet_channel();
    assert_eq!(sender.send(Packet::new(client(), vec![1])), Ok(()));
    assert_eq!(sender.clone().send(Packet::new(client(), vec![2])), Ok(()));
    assert_eq!(r.try_recv(), Ok(Packet::new(client(), vec![1])));
    assert_eq!(r.try_recv(), Ok(Packet::new(client(), vec![2])));
    drop(r);
    assert_eq!(sender.send(Packet::new(client(), vec![3])), Err(Packet::new(client(), vec![3])));
}

#[test]
fn sender_gives_packet_back_when_disconnected() {
    let (s, r) = unbounded();
    drop(r);
    let sender = PacketSender::new(s);
    assert_eq!(
        sender.send(Packet::new(client(), vec![3])),
        Err(Packet::new(client(), vec![3]))
    );
}

#[test]
fn udp_received_datagram_becomes_packet() {
    let buffer = [10u8, 11, 12, 13];
    match next_step(Next::FromClientMessage(Ok((2, client()))), &buffer) {
        ReceiveStep::Deliver(Ok(p)) => {
            assert_eq!(p.address(), client());
            assert_eq!(p.payload(), &[10, 11]);
        }
        other => panic!("unexpected {:?}", other),
    }
}

#[test]
fn udp_failed_receive_is_wrapped() {
    let buffer = [0u8; 1];
    match next_step(Next::FromClientMessage(Err("boom".to_string())), &buffer) {
        ReceiveStep::Deliver(Err(e)) => assert_eq!(e, NaiaServerSocketError::Wrapped("boom".to_string())),
        other => panic!("unexpected {:?}", other),
    }
}

#[test]
fn udp_outgoing_packet_is_sent() {
    let buffer = [0u8; 1];
    let p = Packet::new(client(), vec![1, 2]);
    match next_step(Next::ToClientMessage(p.clone()), &buffer) {
        ReceiveStep::SendToClient(q) => assert_eq!(q, p),
        other => panic!("unexpected {:?}", other),
    }
}

#[test]
fn udp_after_send() {
    assert_eq!(after_send(client(), true), None);
    assert_eq!(
        after_send(client(), false),
        Some(Err(NaiaServerSocketError::SendError(client())))
    );
    assert_eq!(CLIENT_CHANNEL_SIZE, 8);
    assert_eq!(RECEIVE_BUFFER_SIZE, 65536);
}

#[test]
fn socket_listens_once_and_hands_out_its_channels() {
    let mut socket = Socket::new(SocketSharedConfig::new(None, None));
    assert!(!socket.is_listening());
    let (to_client, to_client_rx) = unbounded();
    let (from_client_tx, from_client) = unbounded();
    socket.listen(PacketSender::new(to_client), PacketReceiver::new(from_client));
    assert!(socket.is_listening());
    socket.get_packet_sender().send(Packet::new(client(), vec![9])).unwrap();
    assert_eq!(to_client_rx.try_recv(), Ok(Packet::new(client(), vec![9])));
    from_client_tx.send(Ok(Packet::new(client(), vec![8]))).unwrap();
    assert_eq!(
        socket.get_packet_receiver().receive(),
        Ok(Some(Packet::new(client(), vec![8])))
    );
    assert_eq!(socket.config().rtc_endpoint_path, "rtc_session");
}

#[test]
fn server_config_keeps_its_addresses() {
    let a = SocketAddress::v4(127, 0, 0, 1, 14191);
    let b = SocketAddress::v4(127, 0, 0, 1, 14192);
    let c = ServerSocketConfig::new(a, b, b, SocketSharedConfig::new(None, None));
    assert_eq!(c.session_listen_addr, a);
    assert_eq!(c.webrtc_listen_addr, b);
    assert_eq!(c.public_webrtc_addr, b);
}

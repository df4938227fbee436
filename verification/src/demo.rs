//! The decisions of the ping/pong demo: the client pings the server every
//! second until it has had ten pongs, and the server answers each ping.

use vstd::prelude::*;

use crate::address::SocketAddress;
use crate::client::packet::Packet as ClientPacket;
use crate::server::config::ServerSocketConfig;
use crate::server::packet::Packet as ServerPacket;
use crate::shared::{LinkConditionerConfig, SocketSharedConfig};

verus! {

/// The message the client sends.
pub const PING_MSG: &'static str = "ping";

/// The message the server answers with.
pub const PONG_MSG: &'static str = "pong";

/// How many pongs the client waits for before it stops pinging.
pub const PONGS_WANTED: u8 = 10;

/// The bytes of "ping".
pub open spec fn ping_bytes() -> Seq<u8> {
    seq![112u8, 105u8, 110u8, 103u8]
}

/// The bytes of "pong".
pub open spec fn pong_bytes() -> Seq<u8> {
    seq![112u8, 111u8, 110u8, 103u8]
}

/// Whether `payload` is exactly the four bytes of a four-letter word.
fn is_word(payload: &[u8], word: [u8; 4]) -> (res: bool)
    ensures
        res == (payload@ == word@),
{
    if payload.len() != 4 {
        proof {
            assert(payload@.len() != word@.len());
        }
        return false;
    }
    let mut i: usize = 0;
    while i < 4
        invariant
            payload@.len() == 4,
            i <= 4,
            forall|j: int| 0 <= j < i ==> payload@[j] == word@[j],
        decreases 4 - i,
    {
        if payload[i] != word[i] {
            return false;
        }
        i = i + 1;
    }
    proof {
        assert(payload@ =~= word@);
    }
    true
}

/// Whether a payload is a ping. A payload read as text (invalid sequences
/// replaced) equals "ping" exactly when its bytes are those of "ping".
pub fn is_ping(payload: &[u8]) -> (res: bool)
    ensures
        res == (payload@ == ping_bytes()),
{
    let word: [u8; 4] = [112, 105, 110, 103];
    proof {
        assert(word@ =~= ping_bytes());
    }
    is_word(payload, word)
}

/// Whether a payload is a pong; as for [`is_ping`], the bytes decide.
pub fn is_pong(payload: &[u8]) -> (res: bool)
    ensures
        res == (payload@ == pong_bytes()),
{
    let word: [u8; 4] = [112, 111, 110, 103];
    proof {
        assert(word@ =~= pong_bytes());
    }
    is_word(payload, word)
}

/// The bytes of a ping.
pub fn ping_payload() -> (res: Vec<u8>)
    ensures
        res@ == ping_bytes(),
{
    let res = vec![112u8, 105u8, 110u8, 103u8];
    proof {
        assert(res@ =~= ping_bytes());
    }
    res
}

/// The bytes of a pong.
pub fn pong_payload() -> (res: Vec<u8>)
    ensures
        res@ == pong_bytes(),
{
    let res = vec![112u8, 111u8, 110u8, 103u8];
    proof {
        assert(res@ =~= pong_bytes());
    }
    res
}

/// The address of the demo server, 127.0.0.1:14191.
pub fn get_server_address() -> (res: SocketAddress)
    ensures
        res == (SocketAddress::V4 { ip: 0x7f000001, port: 14191 }),
{
    SocketAddress::v4(127, 0, 0, 1, 14191)
}

/// The address of the demo server's WebRTC data channels, 127.0.0.1:14192:
/// where it listens, and what it advertises.
pub fn get_webrtc_address() -> (res: SocketAddress)
    ensures
        res == (SocketAddress::V4 { ip: 0x7f000001, port: 14192 }),
{
    SocketAddress::v4(127, 0, 0, 1, 14192)
}

/// The configuration of the demo server: signaling at the server address,
/// data channels at the WebRTC address, and the shared demo configuration.
pub fn get_server_socket_config() -> (res: ServerSocketConfig)
    ensures
        res.session_listen_addr == (SocketAddress::V4 { ip: 0x7f000001, port: 14191 }),
        res.webrtc_listen_addr == (SocketAddress::V4 { ip: 0x7f000001, port: 14192 }),
        res.public_webrtc_addr == (SocketAddress::V4 { ip: 0x7f000001, port: 14192 }),
        res.shared.link_condition_config == Some(
            LinkConditionerConfig { incoming_latency: 170, incoming_jitter: 45 },
        ),
        res.shared.rtc_endpoint_path@ == crate::shared::DEFAULT_RTC_PATH@,
{
    ServerSocketConfig::new(
        get_server_address(),
        get_webrtc_address(),
        get_webrtc_address(),
        get_shared_config(),
    )
}

/// The configuration both demo sides share: the link conditions of an
/// average connection, and the default WebRTC endpoint.
pub fn get_shared_config() -> (res: SocketSharedConfig)
    ensures
        res.link_condition_config == Some(
            LinkConditionerConfig { incoming_latency: 170, incoming_jitter: 45 },
        ),
        res.rtc_endpoint_path@ == crate::shared::DEFAULT_RTC_PATH@,
{
    SocketSharedConfig::new(Some(LinkConditionerConfig::average_condition()), None)
}

/// The server's answer to a packet: a pong to the same client for a ping,
/// nothing for anything else.
pub fn server_reply(packet: &ServerPacket) -> (res: Option<ServerPacket>)
    ensures
        packet@.1 == ping_bytes() ==> (res matches Some(p) && p@ == (packet@.0, pong_bytes())),
        packet@.1 != ping_bytes() ==> res is None,
{
    if is_ping(packet.payload()) {
        Some(ServerPacket::new(packet.address(), pong_payload()))
    } else {
        None
    }
}

/// What the demo client does when nothing arrived.
#[derive(Clone, Copy, Debug, PartialEq, Eq, Structural)]
pub enum IdleAction {
    /// Nothing: the timer has not rung.
    Wait,
    /// Restart the timer.
    ResetTimer,
    /// Restart the timer and send a ping.
    ResetTimerAndPing,
}

/// The state of the demo client: how many pongs it has had.
pub struct ClientAppState {
    message_count: u8,
}

impl ClientAppState {
    /// The number of pongs the client has had.
    pub closed spec fn count(&self) -> u8 {
        self.message_count
    }

    /// A client that has had no pong.
    pub fn new() -> (res: ClientAppState)
        ensures
            res.count() == 0,
    {
        ClientAppState { message_count: 0 }
    }

    /// The number of pongs the client has had.
    pub fn message_count(&self) -> (res: u8)
        ensures
            res == self.count(),
    {
        self.message_count
    }

    /// A packet arrived: a pong is counted, anything else is not.
    pub fn on_packet(&mut self, packet: &ClientPacket)
        requires
            packet@ == pong_bytes() ==> old(self).count() < u8::MAX,
        ensures
            final(self).count() == if packet@ == pong_bytes() {
                (old(self).count() + 1) as u8
            } else {
                old(self).count()
            },
    {
        if is_pong(packet.payload()) {
            self.message_count = self.message_count + 1;
        }
    }

    /// Nothing arrived: when the timer rings it restarts, and a ping goes
    /// out while fewer than [`PONGS_WANTED`] pongs came back.
    pub fn on_idle(&self, timer_ringing: bool) -> (res: IdleAction)
        ensures
            res == if !timer_ringing {
                IdleAction::Wait
            } else if self.count() < PONGS_WANTED {
                IdleAction::ResetTimerAndPing
            } else {
                IdleAction::ResetTimer
            },
    {
        if !timer_ringing {
            IdleAction::Wait
        } else if self.message_count < PONGS_WANTED {
            IdleAction::ResetTimerAndPing
        } else {
            IdleAction::ResetTimer
        }
    }
}

} // verus!

use vstd::prelude::*;

use crate::address::SocketAddress;
use crate::bytes::copy_prefix;
use crate::server::error::NaiaServerSocketError;
use crate::server::packet::Packet;

verus! {

/// How many packets to clients may wait for the UDP loop.
pub const CLIENT_CHANNEL_SIZE: usize = 8;

/// The size of the buffer into which the UDP loop receives a datagram.
pub const RECEIVE_BUFFER_SIZE: usize = 0x10000;

/// What the UDP loop of the server woke up for.
#[derive(Debug)]
pub enum Next {
    /// A receive on the socket finished: `len` bytes, now at the start of the
    /// receive buffer, from a client; or a failure, by its description.
    FromClientMessage(Result<(usize, SocketAddress), String>),
    /// A packet is to go out to a client.
    ToClientMessage(Packet),
}

/// What the UDP loop does next.
#[derive(Debug)]
pub enum ReceiveStep {
    /// Hand this result to the socket's receiver, ending this receive.
    Deliver(Result<Packet, NaiaServerSocketError>),
    /// Send this packet to its client, then decide with [`after_send`].
    SendToClient(Packet),
}

/// The decision of the UDP loop on what woke it up: a received datagram
/// becomes a packet from its sender, a failed receive is passed on wrapped,
/// and a packet to a client is sent.
pub fn next_step(next: Next, receive_buffer: &[u8]) -> (res: ReceiveStep)
    requires
        next matches Next::FromClientMessage(Ok((len, _))) ==> len <= receive_buffer@.len(),
    ensures
        match next {
            Next::FromClientMessage(Ok((len, address))) => res matches ReceiveStep::Deliver(
                Ok(p),
            ) && p@ == (address, receive_buffer@.take(len as int)),
            Next::FromClientMessage(Err(e)) => res matches ReceiveStep::Deliver(
                Err(NaiaServerSocketError::Wrapped(w)),
            ) && w == e,
            Next::ToClientMessage(packet) => res matches ReceiveStep::SendToClient(p) && p
                == packet,
        },
{
    match next {
        Next::FromClientMessage(from_client_message) => match from_client_message {
            Ok((message_len, message_address)) => {
                let payload = copy_prefix(receive_buffer, message_len);
                ReceiveStep::Deliver(Ok(Packet::new(message_address, payload)))
            },
            Err(err) => ReceiveStep::Deliver(Err(NaiaServerSocketError::Wrapped(err))),
        },
        Next::ToClientMessage(packet) => ReceiveStep::SendToClient(packet),
    }
}

/// The decision of the UDP loop after it tried to send to the client at
/// `address`: go on waiting (`None`) when the send went out, or end the
/// receive with a send error for that address.
pub fn after_send(address: SocketAddress, sent: bool) -> (res: Option<
    Result<Packet, NaiaServerSocketError>,
>)
    ensures
        res == if sent {
            None::<Result<Packet, NaiaServerSocketError>>
        } else {
            Some(Err::<Packet, NaiaServerSocketError>(NaiaServerSocketError::SendError(address)))
        },
{
    if sent {
        None
    } else {
        Some(Err(NaiaServerSocketError::SendError(address)))
    }
}

} // verus!

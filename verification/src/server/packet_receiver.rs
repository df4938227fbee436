use crossbeam::channel::{Receiver, TryRecvError};
use vstd::prelude::*;

use crate::server::error::NaiaServerSocketError;
use crate::server::packet::Packet;

verus! {

/// Calls `crossbeam_channel::Receiver::try_recv`, which takes the oldest
/// message of the channel without blocking, or reports that none is there.
///
/// Nothing is stated of the result: what the channel holds depends on the
/// threads that send into it.
#[verifier::external_body]
fn try_recv_result(
    receiver: &Receiver<Result<Packet, NaiaServerSocketError>>,
) -> Result<Result<Packet, NaiaServerSocketError>, TryRecvError> {
    receiver.try_recv()
}

/// What the server socket's receiver returns, given what the channel gave:
/// a packet that arrived, or `Ok(None)` when the channel was empty or
/// disconnected, or held an error of the socket.
pub fn receive_outcome(
    outcome: Result<Result<Packet, NaiaServerSocketError>, TryRecvError>,
) -> (res: Result<Option<Packet>, NaiaServerSocketError>)
    ensures
        res == match outcome {
            Ok(Ok(packet)) => Ok::<Option<Packet>, NaiaServerSocketError>(Some(packet)),
            _ => Ok::<Option<Packet>, NaiaServerSocketError>(None),
        },
{
    match outcome {
        Ok(result) => match result {
            Ok(packet) => Ok(Some(packet)),
            Err(_) => Ok(None),
        },
        Err(_) => Ok(None),
    }
}

/// Used to receive packets from the server socket.
#[derive(Debug)]
pub struct PacketReceiver {
    channel_receiver: Receiver<Result<Packet, NaiaServerSocketError>>,
}

impl Clone for PacketReceiver {
    /// Another receiver on the same channel.
    fn clone(&self) -> (res: PacketReceiver)
        ensures
            res == *self,
    {
        PacketReceiver { channel_receiver: self.channel_receiver.clone() }
    }
}

impl PacketReceiver {
    /// Creates a new receiver that takes what arrives on `channel_receiver`.
    pub fn new(channel_receiver: Receiver<Result<Packet, NaiaServerSocketError>>) -> (res:
        PacketReceiver)
        ensures
            res.channel() == channel_receiver,
    {
        PacketReceiver { channel_receiver }
    }

    /// The channel the receiver takes packets from.
    pub closed spec fn channel(&self) -> Receiver<Result<Packet, NaiaServerSocketError>> {
        self.channel_receiver
    }

    /// Receives a packet from the server socket without blocking: never an
    /// error; `Ok(None)` when no packet is there (see [`receive_outcome`]).
    pub fn receive(&self) -> (res: Result<Option<Packet>, NaiaServerSocketError>)
        ensures
            res matches Ok(_),
    {
        receive_outcome(try_recv_result(&self.channel_receiver))
    }
}

} // verus!

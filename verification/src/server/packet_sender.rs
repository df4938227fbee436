use crossbeam::channel::{unbounded, Receiver, SendError, Sender};
use vstd::prelude::*;

use crate::server::packet::Packet;

verus! {

/// Whether the channel of `sender` was made without a bound on what it holds.
pub uninterp spec fn is_unbounded(sender: Sender<Packet>) -> bool;

/// Makes a new channel without a bound with `crossbeam_channel::unbounded`,
/// and returns its sending end, which is unbounded, and its receiving end.
#[verifier::external_body]
fn unbounded_packet_channel() -> (res: (Sender<Packet>, Receiver<Packet>))
    ensures
        is_unbounded(res.0),
{
    unbounded()
}

/// Puts a packet into an unbounded channel with `crossbeam_channel::Sender::send`,
/// without waiting for a receiver. The send fails only when every receiver of
/// the channel is gone, which depends on other threads; the error then holds
/// the packet itself. On a bounded channel a send may wait forever, so only
/// unbounded channels are accepted.
#[verifier::external_body]
fn send_into(sender: &Sender<Packet>, packet: Packet) -> (res: Result<(), Packet>)
    requires
        is_unbounded(*sender),
    ensures
        res matches Err(p) ==> p == packet,
{
    match sender.send(packet) {
        Ok(()) => Ok(()),
        Err(SendError(p)) => Err(p),
    }
}

/// Used to send packets to the server socket, through an unbounded channel.
#[derive(Debug)]
pub struct PacketSender {
    channel_sender: Sender<Packet>,
}

impl PacketSender {
    /// The sender's channel never blocks a send.
    #[verifier::type_invariant]
    spec fn unbounded_channel(self) -> bool {
        is_unbounded(self.channel_sender)
    }
}

impl Clone for PacketSender {
    /// Another sender on the same channel.
    fn clone(&self) -> (res: PacketSender)
        ensures
            res == *self,
    {
        proof {
            use_type_invariant(self);
        }
        PacketSender { channel_sender: self.channel_sender.clone() }
    }
}

/// A new unbounded channel for packets: a sender into it, and its receiving end.
pub fn packet_channel() -> (res: (PacketSender, Receiver<Packet>))
    ensures
        is_unbounded(res.0.channel()),
{
    let (sender, receiver) = unbounded_packet_channel();
    (PacketSender::new(sender), receiver)
}

impl PacketSender {
    /// Creates a new sender that puts packets into `channel_sender`, which
    /// must be unbounded.
    pub fn new(channel_sender: Sender<Packet>) -> (res: PacketSender)
        requires
            is_unbounded(channel_sender),
        ensures
            res.channel() == channel_sender,
    {
        PacketSender { channel_sender }
    }

    /// The channel the sender puts packets into.
    pub closed spec fn channel(&self) -> Sender<Packet> {
        self.channel_sender
    }

    /// Sends a packet to the server socket without blocking; when the
    /// socket's loop is gone the packet comes back as the error.
    pub fn send(&self, packet: Packet) -> (res: Result<(), Packet>)
        ensures
            res matches Err(p) ==> p == packet,
    {
        proof {
            use_type_invariant(self);
        }
        send_into(&self.channel_sender, packet)
    }
}

} // verus!

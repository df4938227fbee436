use vstd::prelude::*;

use crate::server::packet_receiver::PacketReceiver;
use crate::server::packet_sender::PacketSender;
use crate::shared::SocketConfig;

verus! {

/// The sender and receiver of a socket that listens.
#[derive(Debug)]
struct Io {
    packet_sender: PacketSender,
    packet_receiver: PacketReceiver,
}

/// Socket able to send and receive messages from remote clients, once it listens.
#[derive(Debug)]
pub struct Socket {
    config: SocketConfig,
    io: Option<Io>,
}

impl Socket {
    /// The configuration of the socket.
    pub closed spec fn config_spec(&self) -> SocketConfig {
        self.config
    }

    /// Whether the socket listens.
    pub closed spec fn listening(&self) -> bool {
        self.io.is_some()
    }

    /// The sender of a socket that listens.
    pub closed spec fn sender(&self) -> PacketSender {
        self.io.unwrap().packet_sender
    }

    /// The receiver of a socket that listens.
    pub closed spec fn receiver(&self) -> PacketReceiver {
        self.io.unwrap().packet_receiver
    }

    /// Create a new socket, not yet listening.
    pub fn new(config: SocketConfig) -> (res: Socket)
        ensures
            res.config_spec() == config,
            !res.listening(),
    {
        Socket { config, io: None }
    }

    /// The configuration of the socket.
    pub fn config(&self) -> (res: &SocketConfig)
        ensures
            *res == self.config_spec(),
    {
        &self.config
    }

    /// Whether the socket listens.
    pub fn is_listening(&self) -> (res: bool)
        ensures
            res == self.listening(),
    {
        self.io.is_some()
    }

    /// Makes the socket listen through the channels of its background loops;
    /// a socket listens only once.
    pub fn listen(&mut self, packet_sender: PacketSender, packet_receiver: PacketReceiver)
        requires
            !old(self).listening(),
        ensures
            final(self).listening(),
            final(self).sender() == packet_sender,
            final(self).receiver() == packet_receiver,
            final(self).config_spec() == old(self).config_spec(),
    {
        self.io = Some(Io { packet_sender, packet_receiver });
    }

    /// The socket's sender: another handle on the same channel.
    pub fn get_packet_sender(&self) -> (res: PacketSender)
        requires
            self.listening(),
        ensures
            res == self.sender(),
    {
        let io = self.io.as_ref().unwrap();
        io.packet_sender.clone()
    }

    /// The socket's receiver: another handle on the same channel.
    pub fn get_packet_receiver(&self) -> (res: PacketReceiver)
        requires
            self.listening(),
        ensures
            res == self.receiver(),
    {
        let io = self.io.as_ref().unwrap();
        io.packet_receiver.clone()
    }
}

} // verus!

use vstd::prelude::*;

use crate::shared::SocketConfig;

verus! {

/// The sender and receiver of a connected client socket.
pub struct Io<S, R> {
    pub packet_sender: S,
    pub packet_receiver: R,
}

/// A client socket of any transport: its configuration, and once connected,
/// the sender and receiver of its connection.
pub struct Socket<S, R> {
    config: SocketConfig,
    io: Option<Io<S, R>>,
}

impl<S, R> Socket<S, R> {
    /// The configuration of the socket.
    pub closed spec fn config_spec(&self) -> SocketConfig {
        self.config
    }

    /// Whether the socket is connected.
    pub closed spec fn connected(&self) -> bool {
        self.io.is_some()
    }

    /// The sender of a connected socket.
    pub closed spec fn sender(&self) -> S {
        self.io.unwrap().packet_sender
    }

    /// The receiver of a connected socket.
    pub closed spec fn receiver(&self) -> R {
        self.io.unwrap().packet_receiver
    }

    /// Create a new socket, not yet connected.
    pub fn new(config: SocketConfig) -> (res: Socket<S, R>)
        ensures
            res.config_spec() == config,
            !res.connected(),
    {
        Socket { config, io: None }
    }

    /// The configuration of the socket.
    pub fn config(&self) -> (res: &SocketConfig)
        ensures
            *res == self.config_spec(),
    {
        &self.config
    }

    /// Whether the socket is connected.
    pub fn is_connected(&self) -> (res: bool)
        ensures
            res == self.connected(),
    {
        self.io.is_some()
    }

    /// Records the sender and receiver of a new connection; they replace
    /// those of an earlier one.
    pub fn connect(&mut self, packet_sender: S, packet_receiver: R)
        ensures
            final(self).connected(),
            final(self).sender() == packet_sender,
            final(self).receiver() == packet_receiver,
            final(self).config_spec() == old(self).config_spec(),
    {
        self.io = Some(Io { packet_sender, packet_receiver });
    }

    /// Records the sender and receiver of the only connection a socket may
    /// have: the browser transport connects a socket once.
    pub fn connect_once(&mut self, packet_sender: S, packet_receiver: R)
        requires
            !old(self).connected(),
        ensures
            final(self).connected(),
            final(self).sender() == packet_sender,
            final(self).receiver() == packet_receiver,
            final(self).config_spec() == old(self).config_spec(),
    {
        self.io = Some(Io { packet_sender, packet_receiver });
    }

    /// The sender of the connected socket.
    pub fn get_packet_sender(&self) -> (res: &S)
        requires
            self.connected(),
        ensures
            *res == self.sender(),
    {
        let io = self.io.as_ref().unwrap();
        &io.packet_sender
    }

    /// The receiver of the connected socket.
    pub fn get_packet_receiver(&self) -> (res: &R)
        requires
            self.connected(),
        ensures
            *res == self.receiver(),
    {
        let io = self.io.as_ref().unwrap();
        &io.packet_receiver
    }
}

} // verus!

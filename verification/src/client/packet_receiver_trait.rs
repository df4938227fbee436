use vstd::prelude::*;

use crate::client::error::NaiaClientSocketError;
use crate::client::packet::Packet;

verus! {

/// Used to receive packets from the client socket.
pub trait PacketReceiverTrait {
    /// Receives a packet from the client socket: `Ok(None)` when none has arrived.
    fn receive(&mut self) -> Result<Option<Packet>, NaiaClientSocketError>;
}

} // verus!

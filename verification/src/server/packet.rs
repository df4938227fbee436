use vstd::prelude::*;

use crate::address::SocketAddress;

verus! {

/// A packet exchanged with a client: the client's address and the payload bytes.
#[derive(Clone, Debug, PartialEq, Eq)]
pub struct Packet {
    address: SocketAddress,
    payload: Vec<u8>,
}

impl View for Packet {
    type V = (SocketAddress, Seq<u8>);

    closed spec fn view(&self) -> (SocketAddress, Seq<u8>) {
        (self.address, self.payload@)
    }
}

impl Packet {
    /// A packet to or from the client at `address`, carrying `payload`.
    pub fn new(address: SocketAddress, payload: Vec<u8>) -> (res: Packet)
        ensures
            res@ == (address, payload@),
    {
        Packet { address, payload }
    }

    /// The address of the client.
    pub fn address(&self) -> (res: SocketAddress)
        ensures
            res == self@.0,
    {
        self.address
    }

    /// The payload of the packet.
    pub fn payload(&self) -> (res: &[u8])
        ensures
            res@ == self@.1,
    {
        self.payload.as_slice()
    }
}

} // verus!

use vstd::prelude::*;

verus! {

/// A packet exchanged between a client and the server: its payload bytes.
#[derive(Clone, Debug, PartialEq, Eq)]
pub struct Packet {
    payload: Vec<u8>,
}

impl View for Packet {
    type V = Seq<u8>;

    closed spec fn view(&self) -> Seq<u8> {
        self.payload@
    }
}

impl Packet {
    /// A packet that carries the given payload.
    pub fn new(payload: Vec<u8>) -> (res: Packet)
        ensures
            res@ == payload@,
    {
        Packet { payload }
    }

    /// The payload of the packet.
    pub fn payload(&self) -> (res: &[u8])
        ensures
            res@ == self@,
    {
        self.payload.as_slice()
    }
}

} // verus!

use vstd::prelude::*;

use crate::address::SocketAddress;
use crate::bytes::copy_prefix;
use crate::client::error::NaiaClientSocketError;
use crate::client::packet::Packet;

verus! {

/// The size of the buffer into which a native client socket receives a datagram.
pub const RECEIVE_BUFFER_SIZE: usize = 1472;

/// What one non-blocking receive on the UDP socket of a native client gave.
#[derive(Clone, Debug, PartialEq, Eq)]
pub enum ReceiveOutcome {
    /// A datagram of `len` bytes, now at the start of the receive buffer, came from `from`.
    Received { len: usize, from: SocketAddress },
    /// Nothing had arrived.
    WouldBlock,
    /// The socket failed, with this description.
    Failed(String),
}

/// The text of the error for a datagram from an endpoint other than the server.
pub open spec fn unknown_sender_text() -> Seq<char> {
    seq!['U', 'n', 'k', 'n', 'o', 'w', 'n', ' ', 's', 'e', 'n', 'd', 'e', 'r', '.']
}

/// What a native client receives, given what the UDP socket gave.
///
/// A datagram from the server becomes a packet of its bytes; a datagram from
/// any other endpoint is an "Unknown sender." error; nothing arrived is
/// `Ok(None)`; a failure of the socket is passed on, wrapped.
pub fn receive_outcome(
    outcome: ReceiveOutcome,
    server_address: &SocketAddress,
    buffer: &[u8],
) -> (res: Result<Option<Packet>, NaiaClientSocketError>)
    requires
        outcome matches ReceiveOutcome::Received { len, .. } ==> len <= buffer@.len(),
    ensures
        match outcome {
            ReceiveOutcome::Received { len, from } => if from == *server_address {
                res matches Ok(Some(p)) && p@ == buffer@.take(len as int)
            } else {
                res matches Err(NaiaClientSocketError::Message(m)) && m@ == unknown_sender_text()
            },
            ReceiveOutcome::WouldBlock => res == Ok::<Option<Packet>, NaiaClientSocketError>(
                None,
            ),
            ReceiveOutcome::Failed(e) => res == Err::<Option<Packet>, NaiaClientSocketError>(
                NaiaClientSocketError::Wrapped(e),
            ),
        },
{
    match outcome {
        ReceiveOutcome::Received { len, from } => {
            if from.same_endpoint(server_address) {
                let payload = copy_prefix(buffer, len);
                Ok(Some(Packet::new(payload)))
            } else {
                let text = "Unknown sender.";
                proof {
                    reveal_strlit("Unknown sender.");
                }
                let m = text.to_owned();
                proof {
                    assert(m@ =~= unknown_sender_text());
                }
                Err(NaiaClientSocketError::Message(m))
            }
        },
        ReceiveOutcome::WouldBlock => Ok(None),
        ReceiveOutcome::Failed(e) => Err(NaiaClientSocketError::Wrapped(e)),
    }
}

/// The buffer into which a native client socket receives a datagram; being
/// an array, it is always exactly [`RECEIVE_BUFFER_SIZE`] bytes long.
pub struct ReceiveBuffer {
    bytes: [u8; RECEIVE_BUFFER_SIZE],
}

impl ReceiveBuffer {
    /// The bytes of the buffer.
    pub closed spec fn bytes(&self) -> Seq<u8> {
        self.bytes@
    }

    /// A buffer of zeros.
    pub fn new() -> (res: ReceiveBuffer)
        ensures
            res.bytes().len() == RECEIVE_BUFFER_SIZE,
            forall|i: int| 0 <= i < RECEIVE_BUFFER_SIZE ==> #[trigger] res.bytes()[i] == 0,
    {
        ReceiveBuffer { bytes: [0u8; RECEIVE_BUFFER_SIZE] }
    }

    /// The buffer, to receive a datagram into.
    pub fn bytes_mut(&mut self) -> (res: &mut [u8; RECEIVE_BUFFER_SIZE])
        ensures
            res@ == old(self).bytes(),
            final(self).bytes() == final(res)@,
    {
        &mut self.bytes
    }

    /// What a native client receives, given what the UDP socket gave after
    /// receiving into this buffer (see [`receive_outcome`]); a packet holds
    /// at most [`RECEIVE_BUFFER_SIZE`] bytes.
    pub fn receive_outcome(&self, outcome: ReceiveOutcome, server_address: &SocketAddress) -> (res:
        Result<Option<Packet>, NaiaClientSocketError>)
        requires
            outcome matches ReceiveOutcome::Received { len, .. } ==> len <= RECEIVE_BUFFER_SIZE,
        ensures
            match outcome {
                ReceiveOutcome::Received { len, from } => if from == *server_address {
                    res matches Ok(Some(p)) && p@ == self.bytes().take(len as int) && p@.len()
                        <= RECEIVE_BUFFER_SIZE
                } else {
                    res matches Err(NaiaClientSocketError::Message(m)) && m@
                        == unknown_sender_text()
                },
                ReceiveOutcome::WouldBlock => res == Ok::<Option<Packet>, NaiaClientSocketError>(
                    None,
                ),
                ReceiveOutcome::Failed(e) => res == Err::<Option<Packet>, NaiaClientSocketError>(
                    NaiaClientSocketError::Wrapped(e),
                ),
            },
    {
        receive_outcome(outcome, server_address, self.bytes.as_slice())
    }
}

/// Whatever is received into it, a receive buffer stays
/// [`RECEIVE_BUFFER_SIZE`] bytes long.
pub proof fn lemma_receive_buffer_len(buffer: ReceiveBuffer)
    ensures
        buffer.bytes().len() == RECEIVE_BUFFER_SIZE,
{
}

} // verus!

use vstd::prelude::*;

use crate::address::SocketAddress;

verus! {

/// An error that the server socket reports.
#[derive(Clone, Debug, PartialEq, Eq)]
pub enum NaiaServerSocketError {
    /// An error of the transport underneath, by its description.
    Wrapped(String),
    /// A packet to the client at this address could not be sent.
    SendError(SocketAddress),
}

} // verus!

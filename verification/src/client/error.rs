use vstd::prelude::*;

verus! {

/// An error that a client socket reports.
#[derive(Clone, Debug, PartialEq, Eq)]
pub enum NaiaClientSocketError {
    /// An error that the socket describes itself.
    Message(String),
    /// An error of the transport underneath, by its description.
    Wrapped(String),
}

} // verus!

use vstd::prelude::*;

verus! {

/// Server socket, able to send and receive messages from remote clients; its
/// background loops are started where the runtime lives.
#[derive(Debug)]
pub struct ServerSocket;

} // verus!

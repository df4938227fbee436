use vstd::prelude::*;

use crate::shared::SocketSharedConfig;

verus! {

/// Config used to initialize a client socket.
#[derive(Clone, Debug)]
pub struct ClientSocketConfig {
    /// Config which is shared between client and server.
    pub shared: SocketSharedConfig,
}

impl ClientSocketConfig {
    /// Create a new config which will be used to initialize a client socket.
    pub fn new(shared: SocketSharedConfig) -> (res: ClientSocketConfig)
        ensures
            res.shared == shared,
    {
        ClientSocketConfig { shared }
    }
}

} // verus!

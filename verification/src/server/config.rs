use vstd::prelude::*;

use crate::address::SocketAddress;
use crate::shared::SocketSharedConfig;

verus! {

/// Config used to initialize a server socket.
#[derive(Clone, Debug)]
pub struct ServerSocketConfig {
    /// Address to listen on for the signaling portion of WebRTC.
    pub session_listen_addr: SocketAddress,
    /// Address to listen on for UDP WebRTC data channels.
    pub webrtc_listen_addr: SocketAddress,
    /// The public WebRTC address to advertise.
    pub public_webrtc_addr: SocketAddress,
    /// Config which is shared between client and server.
    pub shared: SocketSharedConfig,
}

impl ServerSocketConfig {
    /// Create a new config which will be used to initialize a server socket.
    pub fn new(
        session_listen_addr: SocketAddress,
        webrtc_listen_addr: SocketAddress,
        public_webrtc_addr: SocketAddress,
        shared: SocketSharedConfig,
    ) -> (res: ServerSocketConfig)
        ensures
            res.session_listen_addr == session_listen_addr,
            res.webrtc_listen_addr == webrtc_listen_addr,
            res.public_webrtc_addr == public_webrtc_addr,
            res.shared == shared,
    {
        ServerSocketConfig { session_listen_addr, webrtc_listen_addr, public_webrtc_addr, shared }
    }
}

} // verus!

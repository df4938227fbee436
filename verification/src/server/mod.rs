//! The server side: packets addressed to or from a client, the channels
//! through which the socket's background loops hand them over, and the
//! decisions of the UDP loop.

pub mod config;
pub mod error;
pub mod packet;
pub mod packet_receiver;
pub mod packet_sender;
pub mod server_socket;
pub mod socket;
pub mod udp;

//! The client side: packets exchanged with the server, the errors a client
//! socket reports, and the decisions of each client transport.

pub mod config;
pub mod error;
pub mod miniquad;
pub mod native;
pub mod packet;
pub mod packet_receiver_trait;
pub mod resend;
pub mod resend_progress;
pub mod socket;
pub mod wasm;

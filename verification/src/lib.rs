//! Socket abstractions for naia: packets, the client side (native UDP,
//! browser WebRTC data channel, miniquad JS bridge), the server side, and the
//! ping/pong demo logic, with the decisions of each verified.

pub mod address;
pub mod client;
pub mod shared;
pub mod bytes;
pub mod channel;
pub mod server;
pub mod demo;

[package]
name = "naia_socket"
version = "0.1.0"
edition = "2021"
publish = false

[dependencies]
crossbeam = "0.8"
futures-channel = "0.3"
futures-util = "0.3"
async-io = "1"
log = "0.4"
simple_logger = "*"
web-sys = { version = "0.3", features = ["RtcDataChannel"] }

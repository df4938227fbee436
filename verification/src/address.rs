use vstd::prelude::*;

verus! {

/// A network endpoint: an IP address and a port, as plain integers.
///
/// The IPv4 address is held as its four octets read big-endian; the IPv6
/// address as its sixteen octets read big-endian, with the flow label and
/// scope identifier that an IPv6 endpoint also carries.
#[allow(inconsistent_fields)]
#[derive(Clone, Copy, Debug, PartialEq, Eq, Structural)]
pub enum SocketAddress {
    V4 { ip: u32, port: u16 },
    V6 { ip: u128, port: u16, flowinfo: u32, scope_id: u32 },
}

impl SocketAddress {
    /// The IPv4 endpoint `a.b.c.d:port`.
    pub fn v4(a: u8, b: u8, c: u8, d: u8, port: u16) -> (res: SocketAddress)
        ensures
            res == (SocketAddress::V4 {
                ip: (a * 0x1000000 + b * 0x10000 + c * 0x100 + d) as u32,
                port,
            }),
    {
        let ip: u32 = (a as u32) * 0x1000000 + (b as u32) * 0x10000 + (c as u32) * 0x100 + (d as u32);
        SocketAddress::V4 { ip, port }
    }

    /// The port of the endpoint.
    pub fn port(&self) -> (res: u16)
        ensures
            res == match *self {
                SocketAddress::V4 { port, .. } => port,
                SocketAddress::V6 { port, .. } => port,
            },
    {
        match self {
            SocketAddress::V4 { port, .. } => *port,
            SocketAddress::V6 { port, .. } => *port,
        }
    }

    /// Whether two endpoints are the same endpoint.
    pub fn same_endpoint(&self, other: &SocketAddress) -> (res: bool)
        ensures
            res == (*self == *other),
    {
        *self == *other
    }
}

} // verus!

use naia_socket::address::SocketAddress;

#[test]
fn v4_address_packs_octets_big_endian() {
    let a = SocketAddress::v4(127, 0, 0, 1, 14191);
    assert_eq!(a, SocketAddress::V4 { ip: 0x7f000001, port: 14191 });
    assert_eq!(a.port(), 14191);
}

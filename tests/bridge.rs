use lumina_core::bridge::{bridge_multiaddrs, BridgeError, Multiaddr, Protocol};
use lumina_core::types::Digest;

fn addr(parts: Vec<Protocol>) -> Multiaddr {
    Multiaddr { parts }
}

#[test]
fn keeps_tcp_and_adds_identity() {
    let id = Digest(4, 3, 2, 1);
    let other = Digest(9, 9, 9, 9);
    let addrs = vec![
        addr(vec![Protocol::Ip4(0x7f000001), Protocol::Tcp(2121)]),
        addr(vec![Protocol::Ip4(0x7f000001), Protocol::Udp(2121), Protocol::QuicV1]),
        addr(vec![Protocol::Ip4(0x0a000001), Protocol::Tcp(2121), Protocol::P2p(other)]),
    ];
    let r = bridge_multiaddrs(addrs, id).unwrap();
    assert_eq!(
        r,
        vec![
            addr(vec![Protocol::Ip4(0x7f000001), Protocol::Tcp(2121), Protocol::P2p(id)]),
            addr(vec![Protocol::Ip4(0x0a000001), Protocol::Tcp(2121), Protocol::P2p(other)]),
        ]
    );
}

#[test]
fn no_tcp_address_is_an_error() {
    let addrs = vec![addr(vec![Protocol::Ip4(1), Protocol::Udp(1), Protocol::QuicV1])];
    assert_eq!(bridge_multiaddrs(addrs, Digest::zero()), Err(BridgeError::NoTcpAddress));
    assert_eq!(bridge_multiaddrs(vec![], Digest::zero()), Err(BridgeError::NoTcpAddress));
}

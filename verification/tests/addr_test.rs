use voyage_core::addr::{
    read_be_u64, IpAddr, Ipv4Addr, Ipv6Addr, SocketAddr, SocketAddrV4, SocketAddrV6,
};
use voyage_core::packet::{read_be_u16, read_be_u32};

#[test]
fn ipv6_addresses_keep_their_octets() {
    let mut octets = [0u8; 16];
    for i in 0..16 {
        octets[i] = 0x10 * (i as u8) + 0x0F - (i as u8);
    }
    let addr = Ipv6Addr::from_octets(octets);
    assert_eq!(addr.octets(), octets);
    assert_eq!(addr.hi, 0x0F1E_2D3C_4B5A_6978);
    assert_eq!(addr.lo, 0x8796_A5B4_C3D2_E1F0);
    let mut data = vec![0xEEu8; 3];
    data.extend_from_slice(&octets);
    data.push(0xEE);
    assert_eq!(Ipv6Addr::from_slice(&data, 3), addr);
    assert_eq!(Ipv6Addr::from_octets([0xFF; 16]).octets(), [0xFF; 16]);
    assert_eq!(Ipv6Addr::from_octets([0; 16]), Ipv6Addr::new(0, 0, 0, 0, 0, 0, 0, 0));
}

#[test]
fn ipv6_groups_are_in_network_order() {
    let addr = Ipv6Addr::new(0x2001, 0x0db8, 0x85a3, 0, 0, 0x8a2e, 0x0370, 0x7334);
    assert_eq!(
        addr.octets(),
        [0x20, 0x01, 0x0d, 0xb8, 0x85, 0xa3, 0, 0, 0, 0, 0x8a, 0x2e, 0x03, 0x70, 0x73, 0x34]
    );
    assert_eq!(Ipv6Addr::new(0xFFFF, 0xFFFF, 0xFFFF, 0xFFFF, 0xFFFF, 0xFFFF, 0xFFFF, 0xFFFF).octets(), [0xFF; 16]);
}

#[test]
fn big_endian_numbers_are_read_from_their_bytes() {
    let data = [0x01, 0x02, 0x03, 0x04, 0x05, 0x06, 0x07, 0x08, 0xFF, 0xFE];
    assert_eq!(read_be_u16(&data, 0), 0x0102);
    assert_eq!(read_be_u16(&data, 8), 0xFFFE);
    assert_eq!(read_be_u32(&data, 1), 0x0203_0405);
    assert_eq!(read_be_u32(&data, 6), 0x0708_FFFE);
    assert_eq!(read_be_u64(&data, 0), 0x0102_0304_0506_0708);
    assert_eq!(read_be_u64(&data, 2), 0x0304_0506_0708_FFFE);
    assert_eq!(read_be_u64(&[0xFF; 8], 0), u64::MAX);
}

#[test]
fn socket_addresses_hold_their_parts() {
    let v4 = SocketAddr::new(IpAddr::V4(Ipv4Addr::new(1, 2, 3, 4)), 80);
    assert_eq!(v4, SocketAddr::V4(SocketAddrV4::new(Ipv4Addr::new(1, 2, 3, 4), 80)));
    assert_eq!(v4.ip(), IpAddr::V4(Ipv4Addr::new(1, 2, 3, 4)));
    assert_eq!(v4.port(), 80);
    let ip6 = Ipv6Addr::new(1, 2, 3, 4, 5, 6, 7, 8);
    let v6 = SocketAddr::new(IpAddr::V6(ip6), 443);
    assert_eq!(v6, SocketAddr::V6(SocketAddrV6::new(ip6, 443, 0, 0)));
    assert!(v6 != SocketAddr::V6(SocketAddrV6::new(ip6, 443, 1, 0)));
    assert_eq!(v6.ip(), IpAddr::V6(ip6));
    assert_eq!(v6.port(), 443);
    assert!(v6.ip().is_ipv6());
    assert!(!v6.ip().is_ipv4());
    assert_eq!(SocketAddrV4::new(Ipv4Addr::new(1, 2, 3, 4), 80).ip(), Ipv4Addr::new(1, 2, 3, 4));
    assert_eq!(SocketAddrV4::new(Ipv4Addr::new(1, 2, 3, 4), 80).port(), 80);
    assert_eq!(SocketAddrV6::new(ip6, 9, 0, 0).ip(), ip6);
    assert_eq!(SocketAddrV6::new(ip6, 9, 0, 0).port(), 9);
    assert!(IpAddr::V4(Ipv4Addr::new(0, 0, 0, 1)) != IpAddr::V6(Ipv6Addr::new(0, 0, 0, 0, 0, 0, 0, 1)));
}

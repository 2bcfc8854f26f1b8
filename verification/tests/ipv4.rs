use xarxa::wire::ip::{Protocol, ICMP};
use xarxa::wire::ipv4::{Address, Cidr, Packet};
use xarxa::wire::Error;

const PACKET_BYTES: [u8; 30] = [
    0x45, 0x00, 0x00, 0x1e, 0x01, 0x02, 0x62, 0x03, 0x1a, 0x01, 0xd5, 0x6e, 0x11, 0x12, 0x13, 0x14, 0x21, 0x22,
    0x23, 0x24, 0xaa, 0x00, 0x00, 0x00, 0x00, 0x00, 0x00, 0x00, 0x00, 0xff,
];

const PAYLOAD_BYTES: [u8; 10] = [0xaa, 0x00, 0x00, 0x00, 0x00, 0x00, 0x00, 0x00, 0x00, 0xff];

#[test]
fn ipv4_test_deconstruct() {
    let mut bytes = PACKET_BYTES;
    let packet = Packet::new_unchecked(&mut bytes);
    assert_eq!(packet.version(), 4);
    assert_eq!(packet.header_len(), 20);
    assert_eq!(packet.dscp(), 0);
    assert_eq!(packet.ecn(), 0);
    assert_eq!(packet.total_len(), 30);
    assert_eq!(packet.ident(), 0x102);
    assert!(packet.more_frags());
    assert!(packet.dont_frag());
    assert_eq!(packet.frag_offset(), 0x203 * 8);
    assert_eq!(packet.hop_limit(), 0x1a);
    assert_eq!(packet.next_header(), Protocol(ICMP));
    assert_eq!(packet.checksum(), 0xd56e);
    assert_eq!(packet.src_addr(), Address::new(0x11, 0x12, 0x13, 0x14));
    assert_eq!(packet.dst_addr(), Address::new(0x21, 0x22, 0x23, 0x24));
    assert!(packet.verify_checksum());
    assert_eq!(packet.payload(), &PAYLOAD_BYTES[..]);
}

#[test]
fn ipv4_test_construct() {
    let mut bytes = [0xa5; 30];
    let mut packet = Packet::new_unchecked(&mut bytes);
    packet.set_version(4);
    packet.set_header_len(20);
    packet.clear_flags();
    packet.set_dscp(0);
    packet.set_ecn(0);
    packet.set_total_len(30);
    packet.set_ident(0x102);
    packet.set_more_frags(true);
    packet.set_dont_frag(true);
    packet.set_frag_offset(0x203 * 8);
    packet.set_hop_limit(0x1a);
    packet.set_next_header(Protocol(ICMP));
    packet.set_src_addr(Address::new(0x11, 0x12, 0x13, 0x14));
    packet.set_dst_addr(Address::new(0x21, 0x22, 0x23, 0x24));
    packet.fill_checksum();
    packet.payload_mut().copy_from_slice(&PAYLOAD_BYTES[..]);
    assert_eq!(bytes, PACKET_BYTES);
}

#[test]
fn ipv4_test_overlong() {
    let mut bytes = [0u8; 31];
    bytes[..30].copy_from_slice(&PACKET_BYTES[..]);

    assert_eq!(Packet::new_unchecked(&mut bytes).payload().len(), PAYLOAD_BYTES.len());
    assert_eq!(
        Packet::new_unchecked(&mut bytes).payload_mut().len(),
        PAYLOAD_BYTES.len()
    );
}

#[test]
fn ipv4_test_total_len_overflow() {
    let mut bytes = PACKET_BYTES;
    Packet::new_unchecked(&mut bytes).set_total_len(128);

    assert_eq!(Packet::new_checked(&mut bytes).unwrap_err(), Error);
}

const REPR_PACKET_BYTES: [u8; 24] = [
    0x45, 0x00, 0x00, 0x18, 0x00, 0x00, 0x40, 0x00, 0x40, 0x01, 0xd2, 0x79, 0x11, 0x12, 0x13, 0x14, 0x21, 0x22,
    0x23, 0x24, 0xaa, 0x00, 0x00, 0xff,
];

#[test]
fn test_parse_total_len_less_than_header_len() {
    let mut bytes = [0; 40];
    bytes[0] = 0x09;
    assert_eq!(Packet::new_checked(&mut bytes), Err(Error));
}

#[test]
fn test_parse_small_ihl() {
    let mut bytes = REPR_PACKET_BYTES;
    let mut packet = Packet::new_unchecked(&mut bytes);
    packet.set_header_len(16);

    assert_eq!(Packet::new_checked(&mut bytes), Err(Error));
}

#[test]
fn test_unspecified() {
    assert!(Address::unspecified().is_unspecified());
    assert!(!Address::unspecified().is_broadcast());
    assert!(!Address::unspecified().is_multicast());
    assert!(!Address::unspecified().is_link_local());
    assert!(!Address::unspecified().is_loopback());
}

#[test]
fn test_broadcast() {
    assert!(!Address::broadcast().is_unspecified());
    assert!(Address::broadcast().is_broadcast());
    assert!(!Address::broadcast().is_multicast());
    assert!(!Address::broadcast().is_link_local());
    assert!(!Address::broadcast().is_loopback());
}

#[test]
fn ipv4_test_cidr() {
    let cidr = Cidr::new(Address::new(192, 168, 1, 10), 24);

    let inside_subnet = [
        [192, 168, 1, 0],
        [192, 168, 1, 1],
        [192, 168, 1, 2],
        [192, 168, 1, 10],
        [192, 168, 1, 127],
        [192, 168, 1, 255],
    ];

    let outside_subnet = [
        [192, 168, 0, 0],
        [127, 0, 0, 1],
        [192, 168, 2, 0],
        [192, 168, 0, 255],
        [0, 0, 0, 0],
        [255, 255, 255, 255],
    ];

    let subnets = [
        ([192, 168, 1, 0], 32),
        ([192, 168, 1, 255], 24),
        ([192, 168, 1, 10], 30),
    ];

    let not_subnets = [
        ([192, 168, 1, 10], 23),
        ([127, 0, 0, 1], 8),
        ([192, 168, 1, 0], 0),
        ([192, 168, 0, 255], 32),
    ];

    for addr in inside_subnet.iter().map(|a| Address::from_octets(*a)) {
        assert!(cidr.contains_addr(&addr));
    }

    for addr in outside_subnet.iter().map(|a| Address::from_octets(*a)) {
        assert!(!cidr.contains_addr(&addr));
    }

    for subnet in subnets
        .iter()
        .map(|&(a, p)| Cidr::new(Address::new(a[0], a[1], a[2], a[3]), p))
    {
        assert!(cidr.contains_subnet(&subnet));
    }

    for subnet in not_subnets
        .iter()
        .map(|&(a, p)| Cidr::new(Address::new(a[0], a[1], a[2], a[3]), p))
    {
        assert!(!cidr.contains_subnet(&subnet));
    }

    let cidr_without_prefix = Cidr::new(cidr.address(), 0);
    assert!(cidr_without_prefix.contains_addr(&Address::new(127, 0, 0, 1)));
}

#[test]
fn test_cidr_from_netmask() {
    assert!(Cidr::from_netmask(Address::new(0, 0, 0, 0), Address::new(1, 0, 2, 0)).is_err());
    assert!(Cidr::from_netmask(Address::new(0, 0, 0, 0), Address::new(0, 0, 0, 0)).is_err());
    assert_eq!(
        Cidr::from_netmask(Address::new(0, 0, 0, 1), Address::new(255, 255, 255, 0)).unwrap(),
        Cidr::new(Address::new(0, 0, 0, 1), 24)
    );
    assert_eq!(
        Cidr::from_netmask(Address::new(192, 168, 0, 1), Address::new(255, 255, 0, 0)).unwrap(),
        Cidr::new(Address::new(192, 168, 0, 1), 16)
    );
    assert_eq!(
        Cidr::from_netmask(Address::new(172, 16, 0, 1), Address::new(255, 240, 0, 0)).unwrap(),
        Cidr::new(Address::new(172, 16, 0, 1), 12)
    );
    assert_eq!(
        Cidr::from_netmask(Address::new(255, 255, 255, 1), Address::new(255, 255, 255, 0)).unwrap(),
        Cidr::new(Address::new(255, 255, 255, 1), 24)
    );
    assert_eq!(
        Cidr::from_netmask(Address::new(255, 255, 255, 255), Address::new(255, 255, 255, 255)).unwrap(),
        Cidr::new(Address::new(255, 255, 255, 255), 32)
    );
}

#[test]
fn test_cidr_netmask() {
    assert_eq!(
        Cidr::new(Address::new(0, 0, 0, 0), 0).netmask(),
        Address::new(0, 0, 0, 0)
    );
    assert_eq!(
        Cidr::new(Address::new(0, 0, 0, 1), 24).netmask(),
        Address::new(255, 255, 255, 0)
    );
    assert_eq!(
        Cidr::new(Address::new(0, 0, 0, 0), 32).netmask(),
        Address::new(255, 255, 255, 255)
    );
    assert_eq!(
        Cidr::new(Address::new(127, 0, 0, 0), 8).netmask(),
        Address::new(255, 0, 0, 0)
    );
    assert_eq!(
        Cidr::new(Address::new(192, 168, 0, 0), 16).netmask(),
        Address::new(255, 255, 0, 0)
    );
    assert_eq!(
        Cidr::new(Address::new(192, 168, 1, 1), 16).netmask(),
        Address::new(255, 255, 0, 0)
    );
    assert_eq!(
        Cidr::new(Address::new(192, 168, 1, 1), 17).netmask(),
        Address::new(255, 255, 128, 0)
    );
    assert_eq!(
        Cidr::new(Address::new(172, 16, 0, 0), 12).netmask(),
        Address::new(255, 240, 0, 0)
    );
    assert_eq!(
        Cidr::new(Address::new(255, 255, 255, 1), 24).netmask(),
        Address::new(255, 255, 255, 0)
    );
    assert_eq!(
        Cidr::new(Address::new(255, 255, 255, 255), 32).netmask(),
        Address::new(255, 255, 255, 255)
    );
}

#[test]
fn test_cidr_broadcast() {
    assert_eq!(
        Cidr::new(Address::new(0, 0, 0, 0), 0).broadcast().unwrap(),
        Address::new(255, 255, 255, 255)
    );
    assert_eq!(
        Cidr::new(Address::new(0, 0, 0, 1), 24).broadcast().unwrap(),
        Address::new(0, 0, 0, 255)
    );
    assert_eq!(Cidr::new(Address::new(0, 0, 0, 0), 32).broadcast(), None);
    assert_eq!(
        Cidr::new(Address::new(127, 0, 0, 0), 8).broadcast().unwrap(),
        Address::new(127, 255, 255, 255)
    );
    assert_eq!(
        Cidr::new(Address::new(192, 168, 0, 0), 16).broadcast().unwrap(),
        Address::new(192, 168, 255, 255)
    );
    assert_eq!(
        Cidr::new(Address::new(192, 168, 1, 1), 16).broadcast().unwrap(),
        Address::new(192, 168, 255, 255)
    );
    assert_eq!(
        Cidr::new(Address::new(192, 168, 1, 1), 17).broadcast().unwrap(),
        Address::new(192, 168, 127, 255)
    );
    assert_eq!(
        Cidr::new(Address::new(172, 16, 0, 1), 12).broadcast().unwrap(),
        Address::new(172, 31, 255, 255)
    );
    assert_eq!(
        Cidr::new(Address::new(255, 255, 255, 1), 24).broadcast().unwrap(),
        Address::new(255, 255, 255, 255)
    );
    assert_eq!(Cidr::new(Address::new(255, 255, 255, 254), 31).broadcast(), None);
    assert_eq!(Cidr::new(Address::new(255, 255, 255, 255), 32).broadcast(), None);
}

#[test]
fn test_cidr_network() {
    assert_eq!(
        Cidr::new(Address::new(0, 0, 0, 0), 0).network(),
        Cidr::new(Address::new(0, 0, 0, 0), 0)
    );
    assert_eq!(
        Cidr::new(Address::new(0, 0, 0, 1), 24).network(),
        Cidr::new(Address::new(0, 0, 0, 0), 24)
    );
    assert_eq!(
        Cidr::new(Address::new(0, 0, 0, 0), 32).network(),
        Cidr::new(Address::new(0, 0, 0, 0), 32)
    );
    assert_eq!(
        Cidr::new(Address::new(127, 0, 0, 0), 8).network(),
        Cidr::new(Address::new(127, 0, 0, 0), 8)
    );
    assert_eq!(
        Cidr::new(Address::new(192, 168, 0, 0), 16).network(),
        Cidr::new(Address::new(192, 168, 0, 0), 16)
    );
    assert_eq!(
        Cidr::new(Address::new(192, 168, 1, 1), 16).network(),
        Cidr::new(Address::new(192, 168, 0, 0), 16)
    );
    assert_eq!(
        Cidr::new(Address::new(192, 168, 1, 1), 17).network(),
        Cidr::new(Address::new(192, 168, 0, 0), 17)
    );
    assert_eq!(
        Cidr::new(Address::new(172, 16, 0, 1), 12).network(),
        Cidr::new(Address::new(172, 16, 0, 0), 12)
    );
    assert_eq!(
        Cidr::new(Address::new(255, 255, 255, 1), 24).network(),
        Cidr::new(Address::new(255, 255, 255, 0), 24)
    );
    assert_eq!(
        Cidr::new(Address::new(255, 255, 255, 255), 32).network(),
        Cidr::new(Address::new(255, 255, 255, 255), 32)
    );
}

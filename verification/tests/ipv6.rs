use xarxa::wire::ip::{Protocol, UDP};
use xarxa::wire::ipv6::{
    link_local_all_nodes, link_local_all_routers, Address, Cidr, MulticastScope, Packet,
};
use xarxa::wire::Error;

fn link_local_addr() -> Address {
    Address::new(0xfe80, 0, 0, 0, 0, 0, 0, 1)
}

fn unique_local_addr() -> Address {
    Address::new(0xfd00, 0, 0, 201, 1, 1, 1, 1)
}

fn global_unicast_addr() -> Address {
    Address::new(0x2001, 0xdb8, 0x3, 0, 0, 0, 0, 1)
}

fn solicited_node_addr() -> Address {
    Address::new(0xff02, 0, 0, 0, 0, 1, 0xff01, 101)
}

#[test]
fn test_basic_multicast() {
    assert!(!link_local_all_routers().is_unspecified());
    assert!(link_local_all_routers().is_multicast());
    assert!(!link_local_all_routers().is_link_local());
    assert!(!link_local_all_routers().is_loopback());
    assert!(!link_local_all_routers().is_unique_local());
    assert!(!link_local_all_routers().is_global_unicast());
    assert!(!link_local_all_routers().is_solicited_node_multicast());
    assert!(!link_local_all_nodes().is_unspecified());
    assert!(link_local_all_nodes().is_multicast());
    assert!(!link_local_all_nodes().is_link_local());
    assert!(!link_local_all_nodes().is_loopback());
    assert!(!link_local_all_nodes().is_unique_local());
    assert!(!link_local_all_nodes().is_global_unicast());
    assert!(!link_local_all_nodes().is_solicited_node_multicast());
}

#[test]
fn test_basic_link_local() {
    assert!(!link_local_addr().is_unspecified());
    assert!(!link_local_addr().is_multicast());
    assert!(link_local_addr().is_link_local());
    assert!(!link_local_addr().is_loopback());
    assert!(!link_local_addr().is_unique_local());
    assert!(!link_local_addr().is_global_unicast());
    assert!(!link_local_addr().is_solicited_node_multicast());
}

#[test]
fn test_basic_loopback() {
    assert!(!Address::localhost().is_unspecified());
    assert!(!Address::localhost().is_multicast());
    assert!(!Address::localhost().is_link_local());
    assert!(Address::localhost().is_loopback());
    assert!(!Address::localhost().is_unique_local());
    assert!(!Address::localhost().is_global_unicast());
    assert!(!Address::localhost().is_solicited_node_multicast());
}

#[test]
fn test_unique_local() {
    assert!(!unique_local_addr().is_unspecified());
    assert!(!unique_local_addr().is_multicast());
    assert!(!unique_local_addr().is_link_local());
    assert!(!unique_local_addr().is_loopback());
    assert!(unique_local_addr().is_unique_local());
    assert!(!unique_local_addr().is_global_unicast());
    assert!(!unique_local_addr().is_solicited_node_multicast());
}

#[test]
fn test_global_unicast() {
    assert!(!global_unicast_addr().is_unspecified());
    assert!(!global_unicast_addr().is_multicast());
    assert!(!global_unicast_addr().is_link_local());
    assert!(!global_unicast_addr().is_loopback());
    assert!(!global_unicast_addr().is_unique_local());
    assert!(global_unicast_addr().is_global_unicast());
    assert!(!global_unicast_addr().is_solicited_node_multicast());
}

#[test]
fn test_sollicited_node_multicast() {
    assert!(!solicited_node_addr().is_unspecified());
    assert!(solicited_node_addr().is_multicast());
    assert!(!solicited_node_addr().is_link_local());
    assert!(!solicited_node_addr().is_loopback());
    assert!(!solicited_node_addr().is_unique_local());
    assert!(!solicited_node_addr().is_global_unicast());
    assert!(solicited_node_addr().is_solicited_node_multicast());
}

#[test]
fn test_mask() {
    let addr = Address::new(0x0123, 0x4567, 0x89ab, 0, 0, 0, 0, 1);
    assert_eq!(addr.mask(11), [0x01, 0x20, 0, 0, 0, 0, 0, 0, 0, 0, 0, 0, 0, 0, 0, 0]);
    assert_eq!(addr.mask(15), [0x01, 0x22, 0, 0, 0, 0, 0, 0, 0, 0, 0, 0, 0, 0, 0, 0]);
    assert_eq!(
        addr.mask(26),
        [0x01, 0x23, 0x45, 0x40, 0, 0, 0, 0, 0, 0, 0, 0, 0, 0, 0, 0]
    );
    assert_eq!(
        addr.mask(128),
        [0x01, 0x23, 0x45, 0x67, 0x89, 0xab, 0, 0, 0, 0, 0, 0, 0, 0, 0, 1]
    );
    assert_eq!(
        addr.mask(127),
        [0x01, 0x23, 0x45, 0x67, 0x89, 0xab, 0, 0, 0, 0, 0, 0, 0, 0, 0, 0]
    );
}

#[test]
fn ipv6_test_cidr() {
    // fe80::1/56
    // 0xfe, 0x80, 0x00, 0x00, 0x00, 0x00, 0x00,
    // 0x00, 0x00, 0x00, 0x00, 0x00, 0x00, 0x00, 0x00, 0x01,
    let cidr = Cidr::new(link_local_addr(), 56);

    let inside_subnet = [
        // fe80::2
        [
            0xfe, 0x80, 0x00, 0x00, 0x00, 0x00, 0x00, 0x00, 0x00, 0x00, 0x00, 0x00, 0x00, 0x00, 0x00, 0x02,
        ],
        // fe80::1122:3344:5566:7788
        [
            0xfe, 0x80, 0x00, 0x00, 0x00, 0x00, 0x00, 0x00, 0x11, 0x22, 0x33, 0x44, 0x55, 0x66, 0x77, 0x88,
        ],
        // fe80::ff00:0:0:0
        [
            0xfe, 0x80, 0x00, 0x00, 0x00, 0x00, 0x00, 0x00, 0xff, 0x00, 0x00, 0x00, 0x00, 0x00, 0x00, 0x00,
        ],
        // fe80::ff
        [
            0xfe, 0x80, 0x00, 0x00, 0x00, 0x00, 0x00, 0x00, 0x00, 0x00, 0x00, 0x00, 0x00, 0x00, 0x00, 0xff,
        ],
    ];

    let outside_subnet = [
        // fe80:0:0:101::1
        [
            0xfe, 0x80, 0x00, 0x00, 0x00, 0x00, 0x01, 0x01, 0x00, 0x00, 0x00, 0x00, 0x00, 0x00, 0x00, 0x01,
        ],
        // ::1
        [
            0x00, 0x00, 0x00, 0x00, 0x00, 0x00, 0x00, 0x00, 0x00, 0x00, 0x00, 0x00, 0x00, 0x00, 0x00, 0x01,
        ],
        // ff02::1
        [
            0xff, 0x02, 0x00, 0x00, 0x00, 0x00, 0x00, 0x00, 0x00, 0x00, 0x00, 0x00, 0x00, 0x00, 0x00, 0x01,
        ],
        // ff02::2
        [
            0xff, 0x02, 0x00, 0x00, 0x00, 0x00, 0x00, 0x00, 0x00, 0x00, 0x00, 0x00, 0x00, 0x00, 0x00, 0x02,
        ],
    ];

    let subnets = [
        // fe80::ffff:ffff:ffff:ffff/65
        (
            [
                0xfe, 0x80, 0x00, 0x00, 0x00, 0x00, 0x00, 0x00, 0xff, 0xff, 0xff, 0xff, 0xff, 0xff, 0xff, 0xff,
            ],
            65,
        ),
        // fe80::1/128
        (
            [
                0xfe, 0x80, 0x00, 0x00, 0x00, 0x00, 0x00, 0x00, 0x00, 0x00, 0x00, 0x00, 0x00, 0x00, 0x00, 0x01,
            ],
            128,
        ),
        // fe80::1234:5678/96
        (
            [
                0xfe, 0x80, 0x00, 0x00, 0x00, 0x00, 0x00, 0x00, 0x00, 0x00, 0x00, 0x00, 0x12, 0x34, 0x56, 0x78,
            ],
            96,
        ),
    ];

    let not_subnets = [
        // fe80::101:ffff:ffff:ffff:ffff/55
        (
            [
                0xfe, 0x80, 0x00, 0x00, 0x00, 0x00, 0x01, 0x01, 0xff, 0xff, 0xff, 0xff, 0xff, 0xff, 0xff, 0xff,
            ],
            55,
        ),
        // fe80::101:ffff:ffff:ffff:ffff/56
        (
            [
                0xfe, 0x80, 0x00, 0x00, 0x00, 0x00, 0x01, 0x01, 0xff, 0xff, 0xff, 0xff, 0xff, 0xff, 0xff, 0xff,
            ],
            56,
        ),
        // fe80::101:ffff:ffff:ffff:ffff/57
        (
            [
                0xfe, 0x80, 0x00, 0x00, 0x00, 0x00, 0x01, 0x01, 0xff, 0xff, 0xff, 0xff, 0xff, 0xff, 0xff, 0xff,
            ],
            57,
        ),
        // ::1/128
        (
            [
                0x00, 0x00, 0x00, 0x00, 0x00, 0x00, 0x00, 0x00, 0x00, 0x00, 0x00, 0x00, 0x00, 0x00, 0x00, 0x01,
            ],
            128,
        ),
    ];

    for addr in inside_subnet.iter().map(|a| Address::from_octets(*a)) {
        assert!(cidr.contains_addr(&addr));
    }

    for addr in outside_subnet.iter().map(|a| Address::from_octets(*a)) {
        assert!(!cidr.contains_addr(&addr));
    }

    for subnet in subnets.iter().map(|&(a, p)| Cidr::new(Address::from_octets(a), p)) {
        assert!(cidr.contains_subnet(&subnet));
    }

    for subnet in not_subnets.iter().map(|&(a, p)| Cidr::new(Address::from_octets(a), p)) {
        assert!(!cidr.contains_subnet(&subnet));
    }

    let cidr_without_prefix = Cidr::new(link_local_addr(), 0);
    assert!(cidr_without_prefix.contains_addr(&Address::localhost()));
}

#[test]
fn test_scope() {
    assert_eq!(
        Address::new(0xff01, 0, 0, 0, 0, 0, 0, 1).x_multicast_scope(),
        MulticastScope::InterfaceLocal
    );
    assert_eq!(
        Address::new(0xff02, 0, 0, 0, 0, 0, 0, 1).x_multicast_scope(),
        MulticastScope::LinkLocal
    );
    assert_eq!(
        Address::new(0xff03, 0, 0, 0, 0, 0, 0, 1).x_multicast_scope(),
        MulticastScope::Unknown
    );
    assert_eq!(
        Address::new(0xff04, 0, 0, 0, 0, 0, 0, 1).x_multicast_scope(),
        MulticastScope::AdminLocal
    );
    assert_eq!(
        Address::new(0xff05, 0, 0, 0, 0, 0, 0, 1).x_multicast_scope(),
        MulticastScope::SiteLocal
    );
    assert_eq!(
        Address::new(0xff08, 0, 0, 0, 0, 0, 0, 1).x_multicast_scope(),
        MulticastScope::OrganizationLocal
    );
    assert_eq!(
        Address::new(0xff0e, 0, 0, 0, 0, 0, 0, 1).x_multicast_scope(),
        MulticastScope::Global
    );

    assert_eq!(link_local_all_nodes().x_multicast_scope(), MulticastScope::LinkLocal);

    // For source address selection, unicast addresses also have a scope:
    assert_eq!(link_local_addr().x_multicast_scope(), MulticastScope::LinkLocal);
    assert_eq!(global_unicast_addr().x_multicast_scope(), MulticastScope::Global);
    assert_eq!(unique_local_addr().x_multicast_scope(), MulticastScope::Global);
}

const REPR_PACKET_BYTES: [u8; 52] = [
    0x60, 0x00, 0x00, 0x00, 0x00, 0x0c, 0x11, 0x40, 0xfe, 0x80, 0x00, 0x00, 0x00, 0x00, 0x00, 0x00, 0x00, 0x00,
    0x00, 0x00, 0x00, 0x00, 0x00, 0x01, 0xff, 0x02, 0x00, 0x00, 0x00, 0x00, 0x00, 0x00, 0x00, 0x00, 0x00, 0x00,
    0x00, 0x00, 0x00, 0x01, 0x00, 0x01, 0x00, 0x02, 0x00, 0x0c, 0x02, 0x4e, 0xff, 0xff, 0xff, 0xff,
];
const REPR_PAYLOAD_BYTES: [u8; 12] = [0x00, 0x01, 0x00, 0x02, 0x00, 0x0c, 0x02, 0x4e, 0xff, 0xff, 0xff, 0xff];

#[test]
fn test_packet_deconstruction() {
    let mut bytes = REPR_PACKET_BYTES;
    let packet = Packet::new_unchecked(&mut bytes[..]);
    assert_eq!(packet.check_len(), Ok(()));
    assert_eq!(packet.version(), 6);
    assert_eq!(packet.traffic_class(), 0);
    assert_eq!(packet.flow_label(), 0);
    assert_eq!(packet.total_len(), 0x34);
    assert_eq!(packet.payload_len() as usize, REPR_PAYLOAD_BYTES.len());
    assert_eq!(packet.next_header(), Protocol(UDP));
    assert_eq!(packet.hop_limit(), 0x40);
    assert_eq!(packet.src_addr(), Address::new(0xfe80, 0, 0, 0, 0, 0, 0, 1));
    assert_eq!(packet.dst_addr(), link_local_all_nodes());
    assert_eq!(packet.payload(), &REPR_PAYLOAD_BYTES[..]);
}

#[test]
fn test_packet_construction() {
    let mut bytes = [0xff; 52];
    let mut packet = Packet::new_unchecked(&mut bytes[..]);
    // Version, Traffic Class, and Flow Label are not
    // byte aligned. make sure the setters and getters
    // do not interfere with each other.
    packet.set_version(6);
    assert_eq!(packet.version(), 6);
    packet.set_traffic_class(0x99);
    assert_eq!(packet.version(), 6);
    assert_eq!(packet.traffic_class(), 0x99);
    packet.set_flow_label(0x54321);
    assert_eq!(packet.traffic_class(), 0x99);
    assert_eq!(packet.flow_label(), 0x54321);
    packet.set_payload_len(0xc);
    packet.set_next_header(Protocol(UDP));
    packet.set_hop_limit(0xfe);
    packet.set_src_addr(link_local_all_routers());
    packet.set_dst_addr(link_local_all_nodes());
    packet.payload_mut().copy_from_slice(&REPR_PAYLOAD_BYTES[..]);
    assert_eq!(packet.check_len(), Ok(()));
    let mut expected_bytes = [
        0x69, 0x95, 0x43, 0x21, 0x00, 0x0c, 0x11, 0xfe, 0xff, 0x02, 0x00, 0x00, 0x00, 0x00, 0x00, 0x00, 0x00, 0x00,
        0x00, 0x00, 0x00, 0x00, 0x00, 0x02, 0xff, 0x02, 0x00, 0x00, 0x00, 0x00, 0x00, 0x00, 0x00, 0x00, 0x00, 0x00,
        0x00, 0x00, 0x00, 0x01, 0x00, 0x00, 0x00, 0x00, 0x00, 0x00, 0x00, 0x00, 0x00, 0x00, 0x00, 0x00,
    ];
    let start = expected_bytes.len() - REPR_PAYLOAD_BYTES.len();
    expected_bytes[start..].copy_from_slice(&REPR_PAYLOAD_BYTES[..]);
    assert_eq!(&bytes[..], &expected_bytes[..]);
}

#[test]
fn ipv6_test_overlong() {
    let mut bytes = vec![];
    bytes.extend(&REPR_PACKET_BYTES[..]);
    bytes.push(0);

    assert_eq!(
        Packet::new_unchecked(&mut bytes).payload().len(),
        REPR_PAYLOAD_BYTES.len()
    );
    assert_eq!(
        Packet::new_unchecked(&mut bytes).payload_mut().len(),
        REPR_PAYLOAD_BYTES.len()
    );
}

#[test]
fn ipv6_test_total_len_overflow() {
    let mut bytes = vec![];
    bytes.extend(&REPR_PACKET_BYTES[..]);
    Packet::new_unchecked(&mut bytes).set_payload_len(0x80);

    assert_eq!(Packet::new_checked(&mut bytes).unwrap_err(), Error);
}

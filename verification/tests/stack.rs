use xarxa::control::{deliver_icmp_error, ControlIngress, ErrorDelivery, QuotedPacket};
use xarxa::discovery::{ProbeAction, ProbeEvent, Solicitation};
use xarxa::driver::{
    ChecksumCapabilities, ChecksumOffload, HardwareAddress as ReportedAddress, LinkState, Medium,
};
use xarxa::egress::push_ethernet_header;
use xarxa::iface::IfaceHandle;
use xarxa::ingress::{
    process, process_ip, DhcpRoles, EthernetUpper, FrameKind, Ipv4Ingress, Ipv6Action, TcpIngress,
    UpperIngress,
};
use xarxa::link::{build_ndisc, Dispatch, NeighborAnswer};
use xarxa::pending::Neighbor;
use xarxa::reply::{port_unreachable_v6, Reply};
use xarxa::stack::{
    addr_score, alloc_ephemeral_port, Capabilities, IfaceBinding, Stack, TableRoute, Tuple,
    EPHEMERAL_PORT_MIN,
};
use xarxa::time::{Duration, Instant};
use xarxa::wire::ip::{HOP_BY_HOP, ICMP, ICMPV6, IGMP, TCP, UDP};
use xarxa::wire::{
    arp, control4, control6, ipv6, udp, EthernetAddress, EthernetProtocol, HardwareAddress,
    IpAddress, IpCidr, IpEndpoint, IpListenEndpoint, IpProtocol, IpVersion, Ipv4Address,
    Ipv4Packet, Ipv6Address, Ipv6Packet, TcpControl, TcpPacket, TcpSeqNumber, IPV4_HEADER_LEN, IPV4_MIN_MTU,
    IPV6_HEADER_LEN,
};

const OUR_HW: EthernetAddress = EthernetAddress([0x02, 0, 0, 0, 0, 0x01]);
const REMOTE_HW: EthernetAddress = EthernetAddress([0x02, 0, 0, 0, 0, 0x02]);
const ETHERTYPE_IPV4: EthernetProtocol = EthernetProtocol(0x0800);
const ETHERTYPE_ARP: EthernetProtocol = EthernetProtocol(0x0806);

fn our_v4() -> Ipv4Address {
    Ipv4Address::new(192, 168, 1, 1)
}

fn remote_v4() -> Ipv4Address {
    Ipv4Address::new(192, 168, 1, 2)
}

fn our_v6() -> Ipv6Address {
    Ipv6Address::new(0xfdaa, 0, 0, 0, 0, 0, 0, 1)
}

fn remote_v6() -> Ipv6Address {
    Ipv6Address::new(0xfdaa, 0, 0, 0, 0, 0, 0, 2)
}

fn our_link_local() -> Ipv6Address {
    Ipv6Address::new(0xfe80, 0, 0, 0, 0, 0xff, 0xfe00, 0x1)
}

/// A stack with one interface of the given medium, owning 192.168.1.1/24 and fdaa::1/64.
fn test_stack_inner(medium: Medium, ip_mtu: usize, checksum: ChecksumCapabilities) -> Stack {
    let mut stack = Stack::new();
    let reported = match medium {
        Medium::Ethernet => ReportedAddress::Ethernet(OUR_HW.0),
        Medium::Ip => ReportedAddress::Ip,
        Medium::Ieee802154 => ReportedAddress::Ieee802154([0x02; 8]),
    };
    let caps = Capabilities { medium, ip_mtu, checksum };
    let handle = stack.add_iface(caps, reported).unwrap();
    let iface = stack.iface(handle);
    iface.ip_addrs.push(IpCidr::new(our_v4().into(), 24));
    iface.ip_addrs.push(IpCidr::new(our_v6().into(), 64));
    stack
}

fn test_stack(medium: Medium) -> Stack {
    test_stack_inner(medium, 1500, ChecksumCapabilities::default())
}

fn handle(index: usize) -> IfaceHandle {
    IfaceHandle::new(index)
}

fn no_dhcp() -> DhcpRoles {
    DhcpRoles { client: false, server: false }
}

/// A whole IPv4 packet, header checksum filled in.
fn ipv4_packet(src: Ipv4Address, dst: Ipv4Address, protocol: u8, payload: &[u8]) -> Vec<u8> {
    let mut bytes = vec![0; IPV4_HEADER_LEN + payload.len()];
    {
        let mut ip = Ipv4Packet::new_unchecked(&mut bytes[..]);
        ip.set_version(4);
        ip.set_header_len(IPV4_HEADER_LEN as u8);
        ip.set_total_len((IPV4_HEADER_LEN + payload.len()) as u16);
        ip.set_next_header(IpProtocol(protocol));
        ip.set_hop_limit(64);
        ip.set_src_addr(src);
        ip.set_dst_addr(dst);
        ip.fill_checksum();
    }
    bytes[IPV4_HEADER_LEN..].copy_from_slice(payload);
    bytes
}

/// A whole IPv6 packet.
fn ipv6_packet(src: Ipv6Address, dst: Ipv6Address, protocol: u8, payload: &[u8]) -> Vec<u8> {
    let mut bytes = vec![0; IPV6_HEADER_LEN + payload.len()];
    {
        let mut ip = Ipv6Packet::new_unchecked(&mut bytes[..]);
        ip.set_version(6);
        ip.set_payload_len(payload.len() as u16);
        ip.set_next_header(IpProtocol(protocol));
        ip.set_hop_limit(64);
        ip.set_src_addr(src);
        ip.set_dst_addr(dst);
    }
    bytes[IPV6_HEADER_LEN..].copy_from_slice(payload);
    bytes
}

fn fold_sum(bytes: &[u8], initial: u32) -> u16 {
    let mut sum = initial;
    for pair in bytes.chunks(2) {
        sum += u32::from(pair[0]) << 8 | u32::from(*pair.get(1).unwrap_or(&0));
    }
    while sum > 0xffff {
        sum = (sum & 0xffff) + (sum >> 16);
    }
    !(sum as u16)
}

/// A UDP datagram (UDP header + payload), checksum filled in.
fn udp_datagram(
    src: IpAddress,
    src_port: u16,
    dst: IpAddress,
    dst_port: u16,
    payload: &[u8],
) -> Vec<u8> {
    let len = (8 + payload.len()) as u16;
    let mut bytes = Vec::new();
    for field in [src_port, dst_port, len, 0] {
        bytes.extend_from_slice(&field.to_be_bytes());
    }
    bytes.extend_from_slice(payload);
    let mut pseudo = Vec::new();
    for addr in [src, dst] {
        match addr {
            IpAddress::Ipv4(addr) => pseudo.extend_from_slice(&addr.octets()),
            IpAddress::Ipv6(addr) => pseudo.extend_from_slice(&addr.octets()),
        }
    }
    pseudo.extend_from_slice(&[0, UDP]);
    pseudo.extend_from_slice(&len.to_be_bytes());
    pseudo.extend_from_slice(&bytes);
    let checksum = fold_sum(&pseudo, 0);
    bytes[6..8].copy_from_slice(&checksum.to_be_bytes());
    bytes
}

fn icmpv4_echo(msg_type: u8, ident: u16, seq_no: u16, payload: &[u8]) -> Vec<u8> {
    let mut bytes = vec![msg_type, 0, 0, 0];
    bytes.extend_from_slice(&ident.to_be_bytes());
    bytes.extend_from_slice(&seq_no.to_be_bytes());
    bytes.extend_from_slice(payload);
    control4::fill_checksum(&mut bytes, false);
    bytes
}

fn icmpv6_echo(
    msg_type: u8,
    ident: u16,
    seq_no: u16,
    payload: &[u8],
    src: Ipv6Address,
    dst: Ipv6Address,
) -> Vec<u8> {
    let mut bytes = vec![msg_type, 0, 0, 0];
    bytes.extend_from_slice(&ident.to_be_bytes());
    bytes.extend_from_slice(&seq_no.to_be_bytes());
    bytes.extend_from_slice(payload);
    control6::fill_checksum(&mut bytes, &src, &dst, false);
    bytes
}

/// What becomes of an IP packet that arrives on an interface, up to the upper layer.
fn upper(stack: &Stack, arrival: IfaceHandle, packet: Vec<u8>) -> Option<UpperIngress> {
    let iface = stack.ifaces.get(arrival.index());
    match process_ip(&packet)? {
        IpVersion::Ipv4 => match iface.process_ipv4(no_dhcp(), None, packet) {
            Ipv4Ingress::Accept(accepted) => Some(iface.process_ipv4_upper(accepted)),
            _ => None,
        },
        IpVersion::Ipv6 => match iface.process_ipv6(None, packet, our_v6()).action {
            Ipv6Action::Accept(accepted) => {
                Some(iface.process_ipv6_upper(None, accepted, our_v6()))
            }
            Ipv6Action::Error(reply) => Some(UpperIngress::Unsupported(reply)),
            Ipv6Action::Drop => None,
        },
    }
}

/// The reply to an IP packet that arrives on an interface, and the interface it leaves through.
fn inject(stack: &mut Stack, arrival: IfaceHandle, packet: Vec<u8>) -> Option<(usize, Vec<u8>)> {
    let reply: Option<Reply> = match upper(stack, arrival, packet)? {
        UpperIngress::Control(ControlIngress::Reply(reply)) => Some(reply),
        UpperIngress::Unsupported(reply) => reply,
        _ => None,
    };
    let reply = reply?;
    let (_, dst_addr) = reply.addresses();
    let (route, packet) = stack.transmit_reply(arrival, reply, None)?;
    match stack.transmit_raw_ip(&route, packet, dst_addr, NeighborAnswer::NotFound) {
        Dispatch::Transmit(frame) => Some((route.iface.index(), frame)),
        _ => None,
    }
}

/// Parse a transmitted IPv4 frame as an ICMPv4 message, verifying addresses and both checksums,
/// and return `(type, code, quoted packet)`.
fn parse_icmpv4_reply(frame: &[u8], src: Ipv4Address, dst: Ipv4Address) -> (u8, u8, Vec<u8>) {
    let mut bytes = frame.to_vec();
    let ip = Ipv4Packet::new_checked(&mut bytes[..]).unwrap();
    assert!(ip.verify_checksum());
    assert_eq!(ip.src_addr(), src);
    assert_eq!(ip.dst_addr(), dst);
    assert_eq!(ip.next_header(), IpProtocol(ICMP));
    let header_len = ip.header_len() as usize;
    let icmp = &frame[header_len..];
    assert!(control4::verify_checksum(icmp));
    (icmp[0], icmp[1], icmp[8..].to_vec())
}

/// Parse a transmitted IPv6 frame as an ICMPv6 message, verifying addresses and the checksum,
/// and return `(type, code, pointer, quoted packet)`.
fn parse_icmpv6_reply(frame: &[u8], src: Ipv6Address, dst: Ipv6Address) -> (u8, u8, u32, Vec<u8>) {
    let mut bytes = frame.to_vec();
    let ip = Ipv6Packet::new_checked(&mut bytes[..]).unwrap();
    assert_eq!(ip.src_addr(), src);
    assert_eq!(ip.dst_addr(), dst);
    assert_eq!(ip.next_header(), IpProtocol(ICMPV6));
    let icmp = &frame[IPV6_HEADER_LEN..];
    assert!(control6::verify_checksum(icmp, &src, &dst));
    let pointer = u32::from_be_bytes([icmp[4], icmp[5], icmp[6], icmp[7]]);
    (icmp[0], icmp[1], pointer, icmp[8..].to_vec())
}

#[test]
fn test_alloc_ephemeral_port() {
    // Unconstrained: any port in the ephemeral range.
    let port = alloc_ephemeral_port(42, |_: u16| false).unwrap();
    assert!(port >= EPHEMERAL_PORT_MIN);

    // The probe walks past used ports (wrapping) to the single free one.
    let free = EPHEMERAL_PORT_MIN + 1234;
    assert_eq!(alloc_ephemeral_port(0x1234_5678, |p: u16| p != free), Some(free));

    // Every port in use: allocation fails.
    assert_eq!(alloc_ephemeral_port(7, |_: u16| true), None);
}

#[test]
fn ephemeral_ports_are_probed_upward_from_the_random_one() {
    assert_eq!(alloc_ephemeral_port(16384 + 5, |_: u16| false), Some(49157));
    assert_eq!(alloc_ephemeral_port(5, |p: u16| p == 49157), Some(49158));
    // The range wraps at the top of the port space.
    assert_eq!(alloc_ephemeral_port(16383, |p: u16| p == 65535), Some(49152));
}

#[test]
fn test_checksum_offload_defaults() {
    assert!(!ChecksumOffload::none().rx && !ChecksumOffload::none().tx);
    assert!(ChecksumOffload::both().rx && ChecksumOffload::both().tx);
    // The default is no offload: everything in software.
    assert_eq!(ChecksumOffload::default(), ChecksumOffload::none());
    assert_eq!(ChecksumCapabilities::default().udp, ChecksumOffload::none());
    assert_eq!(ChecksumCapabilities::all_offloaded().udp, ChecksumOffload::both());
}

#[test]
fn test_icmpv4_proto_unreachable() {
    let mut stack = test_stack(Medium::Ip);
    let packet = ipv4_packet(remote_v4(), our_v4(), 99, b"hello");
    let (_, frame) = inject(&mut stack, handle(0), packet.clone()).unwrap();
    let (msg_type, msg_code, quote) = parse_icmpv4_reply(&frame, our_v4(), remote_v4());
    assert_eq!(msg_type, control4::DST_UNREACHABLE);
    assert_eq!(msg_code, control4::PROTO_UNREACHABLE);
    assert_eq!(quote, packet);
}

/// A stack with two IP-medium interfaces: the first owns 192.168.1.1/24, the second 10.0.0.1/24,
/// and both own fe80::1/64.
fn test_stack_two_ifaces() -> Stack {
    let mut stack = Stack::new();
    for addr in [our_v4(), Ipv4Address::new(10, 0, 0, 1)] {
        let caps = Capabilities {
            medium: Medium::Ip,
            ip_mtu: 1500,
            checksum: ChecksumCapabilities::default(),
        };
        let handle = stack.add_iface(caps, ReportedAddress::Ip).unwrap();
        let iface = stack.iface(handle);
        iface.ip_addrs.push(IpCidr::new(addr.into(), 24));
        iface.ip_addrs.push(IpCidr::new(link_local_v6().into(), 64));
    }
    stack
}

fn remote_v4_b() -> Ipv4Address {
    Ipv4Address::new(10, 0, 0, 2)
}

fn link_local_v6() -> Ipv6Address {
    Ipv6Address::new(0xfe80, 0, 0, 0, 0, 0, 0, 1)
}

fn link_local_remote_v6() -> Ipv6Address {
    Ipv6Address::new(0xfe80, 0, 0, 0, 0, 0, 0, 2)
}

#[test]
fn test_reply_routed_out_other_iface() {
    let mut stack = test_stack_two_ifaces();
    // Unknown protocol from the second interface's subnet, arriving on the first.
    let packet = ipv4_packet(remote_v4_b(), our_v4(), 99, b"hello");
    let (iface, frame) = inject(&mut stack, handle(0), packet.clone()).unwrap();
    assert_eq!(iface, 1);
    let (msg_type, msg_code, quote) = parse_icmpv4_reply(&frame, our_v4(), remote_v4_b());
    assert_eq!(msg_type, control4::DST_UNREACHABLE);
    assert_eq!(msg_code, control4::PROTO_UNREACHABLE);
    assert_eq!(quote, packet);
}

#[test]
fn test_reply_to_link_local_stays_on_arrival_iface() {
    let mut stack = test_stack_two_ifaces();
    let icmp = icmpv6_echo(
        control6::ECHO_REQUEST,
        0x1234,
        1,
        b"hello",
        link_local_remote_v6(),
        link_local_v6(),
    );
    let packet = ipv6_packet(link_local_remote_v6(), link_local_v6(), ICMPV6, &icmp);
    // Arriving on the second interface: an on-link scan would pick the first.
    let (iface, frame) = inject(&mut stack, handle(1), packet).unwrap();
    assert_eq!(iface, 1);
    let (msg_type, _, _, payload) =
        parse_icmpv6_reply(&frame, link_local_v6(), link_local_remote_v6());
    assert_eq!(msg_type, control6::ECHO_REPLY);
    assert_eq!(payload, b"hello");
}

#[test]
fn test_icmpv4_echo_reply() {
    let mut stack = test_stack(Medium::Ip);
    let payload: Vec<u8> = (0..1472u16).map(|i| i as u8).collect();
    let request = icmpv4_echo(control4::ECHO_REQUEST, 0x1234, 7, &payload);
    let packet = ipv4_packet(remote_v4(), our_v4(), ICMP, &request);
    let (_, frame) = inject(&mut stack, handle(0), packet).unwrap();
    let (msg_type, msg_code, data) = parse_icmpv4_reply(&frame, our_v4(), remote_v4());
    assert_eq!(msg_type, control4::ECHO_REPLY);
    assert_eq!(msg_code, 0);
    assert_eq!(data, payload);
    assert_eq!(
        frame[IPV4_HEADER_LEN..],
        icmpv4_echo(control4::ECHO_REPLY, 0x1234, 7, &payload)[..]
    );
}

#[test]
fn test_icmpv6_echo_reply() {
    let mut stack = test_stack(Medium::Ip);
    let payload: Vec<u8> = (0..1452u16).map(|i| i as u8).collect();
    let request =
        icmpv6_echo(control6::ECHO_REQUEST, 0x1234, 7, &payload, remote_v6(), our_v6());
    let packet = ipv6_packet(remote_v6(), our_v6(), ICMPV6, &request);
    let (_, frame) = inject(&mut stack, handle(0), packet).unwrap();
    let (msg_type, msg_code, _, data) = parse_icmpv6_reply(&frame, our_v6(), remote_v6());
    assert_eq!(msg_type, control6::ECHO_REPLY);
    assert_eq!(msg_code, 0);
    assert_eq!(data, payload);
    assert_eq!(
        frame[IPV6_HEADER_LEN..],
        icmpv6_echo(control6::ECHO_REPLY, 0x1234, 7, &payload, our_v6(), remote_v6())[..]
    );
}

#[test]
fn test_icmpv4_no_error_to_broadcast() {
    let mut stack = test_stack(Medium::Ip);
    // Unknown protocol on a broadcast-destined packet: no error may be sent.
    let bcast = Ipv4Address::new(192, 168, 1, 255);
    let packet = ipv4_packet(remote_v4(), bcast, 99, b"hello");
    assert!(inject(&mut stack, handle(0), packet).is_none());
}

#[test]
fn test_icmpv6_unknown_next_header() {
    let mut stack = test_stack(Medium::Ip);
    let packet = ipv6_packet(remote_v6(), our_v6(), 99, b"hello");
    let (_, frame) = inject(&mut stack, handle(0), packet.clone()).unwrap();
    let (msg_type, msg_code, pointer, quote) = parse_icmpv6_reply(&frame, our_v6(), remote_v6());
    assert_eq!(msg_type, control6::PARAM_PROBLEM);
    assert_eq!(msg_code, control6::UNRECOGNIZED_NXT_HDR);
    // The pointer names the fixed header's next header field.
    assert_eq!(pointer, 6);
    assert_eq!(quote, packet);
}

#[test]
fn test_icmpv6_no_error_to_multicast() {
    let mut stack = test_stack(Medium::Ip);
    // Unknown protocol on a multicast-destined packet: no error may be sent.
    let packet = ipv6_packet(remote_v6(), ipv6::link_local_all_nodes(), 99, b"hello");
    assert!(inject(&mut stack, handle(0), packet).is_none());
}

/// A hop-by-hop options header carrying the given options (padded to a multiple of 8 by the
/// caller), followed by the given payload.
fn hbh_payload(next_header: u8, options: &[u8], payload: &[u8]) -> Vec<u8> {
    assert_eq!((options.len() + 2) % 8, 0);
    let mut bytes = vec![next_header, ((options.len() + 2) / 8 - 1) as u8];
    bytes.extend_from_slice(options);
    bytes.extend_from_slice(payload);
    bytes
}

#[test]
fn test_icmpv6_hop_by_hop_passthrough() {
    let stack = test_stack(Medium::Ip);
    // PadN + an unknown option whose action is "skip" (high bits 00): the packet continues to
    // UDP and is delivered, headers intact.
    let datagram = udp_datagram(remote_v6().into(), 4000, our_v6().into(), 7, b"echo?");
    let options = [0x01, 0x01, 0x00, 0x02, 0x01, 0x00];
    let packet = ipv6_packet(
        remote_v6(),
        our_v6(),
        HOP_BY_HOP,
        &hbh_payload(UDP, &options, &datagram),
    );
    match upper(&stack, handle(0), packet) {
        Some(UpperIngress::Udp(delivered)) => {
            assert_eq!(delivered, datagram);
            let (src, dst) = (remote_v6().into(), our_v6().into());
            assert!(udp::check_len(&delivered));
            assert!(udp::verify_checksum(&delivered, &src, &dst));
            assert_eq!(udp::src_port(&delivered), 4000);
            assert_eq!(udp::dst_port(&delivered), 7);
            assert_eq!(udp::payload_of(&delivered), b"echo?");
        }
        _ => panic!("the datagram did not reach UDP"),
    }
}

#[test]
fn test_icmpv6_hop_by_hop_unrecognized_option() {
    let mut stack = test_stack(Medium::Ip);

    // High bits 01: discard silently.
    let options = [0x41, 0x04, 0x00, 0x00, 0x00, 0x00];
    let packet =
        ipv6_packet(remote_v6(), our_v6(), HOP_BY_HOP, &hbh_payload(UDP, &options, b""));
    assert!(inject(&mut stack, handle(0), packet).is_none());

    // High bits 10: discard and send a parameter problem, pointing at the offending option
    // (40-byte header + 2 bytes into the extension header).
    let options = [0x81, 0x04, 0x00, 0x00, 0x00, 0x00];
    let packet =
        ipv6_packet(remote_v6(), our_v6(), HOP_BY_HOP, &hbh_payload(UDP, &options, b""));
    let (_, frame) = inject(&mut stack, handle(0), packet.clone()).unwrap();
    let (msg_type, msg_code, pointer, quote) = parse_icmpv6_reply(&frame, our_v6(), remote_v6());
    assert_eq!(msg_type, control6::PARAM_PROBLEM);
    assert_eq!(msg_code, control6::UNRECOGNIZED_OPTION);
    assert_eq!(pointer, 42);
    assert_eq!(quote, packet);
}

#[test]
fn test_icmpv6_hop_by_hop_unrecognized_option_multicast() {
    let mut stack = test_stack(Medium::Ip);

    // High bits 11: discard, and send the error only if the destination was not multicast,
    // which it is here, so nothing may be sent.
    let options = [0xc1, 0x04, 0x00, 0x00, 0x00, 0x00];
    let payload = hbh_payload(UDP, &options, b"");
    let packet = ipv6_packet(remote_v6(), ipv6::link_local_all_nodes(), HOP_BY_HOP, &payload);
    assert!(inject(&mut stack, handle(0), packet).is_none());

    // High bits 10: the error is sent even for a multicast destination, with the source picked
    // from the interface.
    let options = [0x81, 0x04, 0x00, 0x00, 0x00, 0x00];
    let payload = hbh_payload(UDP, &options, b"");
    let packet = ipv6_packet(remote_v6(), ipv6::link_local_all_nodes(), HOP_BY_HOP, &payload);
    let (_, frame) = inject(&mut stack, handle(0), packet.clone()).unwrap();
    let (msg_type, msg_code, _, quote) = parse_icmpv6_reply(&frame, our_v6(), remote_v6());
    assert_eq!(msg_type, control6::PARAM_PROBLEM);
    assert_eq!(msg_code, control6::UNRECOGNIZED_OPTION);
    assert_eq!(quote, packet);
}

#[test]
fn test_icmp_error_quote_truncated() {
    let mut stack = test_stack(Medium::Ip);
    // A big offending packet: the quote is capped so the error fits the minimum MTU (576 for
    // IPv4: 20-byte header + 8-byte ICMP header + quote).
    let packet = ipv4_packet(remote_v4(), our_v4(), 99, &[0xab; 1000]);
    let (_, frame) = inject(&mut stack, handle(0), packet.clone()).unwrap();
    let (_, _, quote) = parse_icmpv4_reply(&frame, our_v4(), remote_v4());
    assert_eq!(quote.len(), IPV4_MIN_MTU - IPV4_HEADER_LEN - 8);
    assert_eq!(quote, packet[..quote.len()]);
}

#[test]
fn test_neighbor_failure_dst_unreachable() {
    let mut stack = test_stack(Medium::Ethernet);
    // Send a datagram to an on-link address that will never resolve: the packet is queued and
    // an ARP request goes out.
    let dead = Ipv4Address::new(192, 168, 1, 99);
    let datagram = udp_datagram(our_v4().into(), 5555, dead.into(), 1000, b"anyone?");
    let route = stack.route(IfaceBinding::Any, &dead.into(), None).unwrap();
    let dispatch = stack.transmit_ip(
        &route,
        datagram,
        our_v4().into(),
        dead.into(),
        IpProtocol(UDP),
        64,
        NeighborAnswer::NotFound,
    );
    assert!(matches!(dispatch, Dispatch::Parked { start: true, .. }));
    let event = ProbeEvent::Retransmit(dead.into());
    match stack.poll_neighbor_timer(handle(0), event, Some(our_v4()), our_v6()) {
        ProbeAction::Solicit(Solicitation::Frame(frame)) => {
            let message = arp::Message::parse(&frame[14..]).unwrap();
            assert_eq!(message.operation, arp::OPERATION_REQUEST);
            assert_eq!(message.target_protocol_addr, dead);
        }
        _ => panic!("no ARP request"),
    }

    // The resolution runs out of probes: the error is not sent to the wire, it is delivered
    // back through local ingress: host unreachable, from us to us, quoting the queued packet.
    let event = ProbeEvent::Failed(dead.into());
    let packets = match stack.poll_neighbor_timer(handle(0), event, Some(our_v4()), our_v6()) {
        ProbeAction::Unreachable(packets) => packets,
        _ => panic!("the resolution did not fail"),
    };
    assert_eq!(packets.len(), 1);
    let orig = packets.into_iter().next().unwrap().buf;
    let iface = stack.ifaces.get(0);
    let (version, error) =
        iface.deliver_neighbor_failure_error(orig, Some(our_v4()), our_v6()).unwrap();
    assert_eq!(version, IpVersion::Ipv4);
    let (msg_type, msg_code, mut quote) = parse_icmpv4_reply(&error, our_v4(), our_v4());
    assert_eq!(msg_type, control4::DST_UNREACHABLE);
    assert_eq!(msg_code, control4::HOST_UNREACHABLE);
    let ip = Ipv4Packet::new_checked(&mut quote[..]).unwrap();
    assert_eq!(ip.src_addr(), our_v4());
    assert_eq!(ip.dst_addr(), dead);
    assert_eq!(ip.next_header(), IpProtocol(UDP));

    // Local ingress hands it to the socket that sent the packet.
    match upper(&stack, handle(0), error.clone()) {
        Some(UpperIngress::Control(ControlIngress::Error { msg_type, msg_code, .. })) => {
            assert_eq!(msg_type, control4::DST_UNREACHABLE);
            assert_eq!(msg_code, control4::HOST_UNREACHABLE);
        }
        _ => panic!("the error was not delivered"),
    }

    // An ICMP error about the error is never generated.
    assert!(iface.deliver_neighbor_failure_error(error, Some(our_v4()), our_v6()).is_none());
}

/// The flow of the UDP datagram that an ICMPv4 error quotes.
fn quoted_datagram(quote: &[u8]) -> Option<QuotedPacket> {
    let mut bytes = quote.to_vec();
    let ip = Ipv4Packet::new_checked(&mut bytes[..]).ok()?;
    let (src_addr, dst_addr, protocol) = (ip.src_addr(), ip.dst_addr(), ip.next_header());
    let datagram = &quote[IPV4_HEADER_LEN..];
    Some(QuotedPacket {
        src_addr: src_addr.into(),
        src_port: udp::src_port(datagram),
        dst_addr: dst_addr.into(),
        dst_port: udp::dst_port(datagram),
        protocol,
        tcp_seq: None,
    })
}

#[test]
fn test_neighbor_failure_reported_to_udp_socket() {
    let mut stack = test_stack(Medium::Ethernet);
    let dead = Ipv4Address::new(192, 168, 1, 99);
    let datagram = udp_datagram(our_v4().into(), 5555, dead.into(), 1000, b"anyone?");
    let route = stack.route(IfaceBinding::Any, &dead.into(), None).unwrap();
    let dispatch = stack.transmit_ip(
        &route,
        datagram,
        our_v4().into(),
        dead.into(),
        IpProtocol(UDP),
        64,
        NeighborAnswer::NotFound,
    );
    assert!(matches!(dispatch, Dispatch::Parked { start: true, .. }));

    // Let the ARP resolution run out of probes: the first solicitation, two more, and then it
    // fails. Nothing but the ARP requests ever reaches the wire.
    let mut wire = Vec::new();
    match stack.ifaces.get(0).solicit_neighbor(dead.into(), Some(our_v4()), our_v6()) {
        Solicitation::Frame(frame) => wire.push(frame),
        _ => panic!("no ARP request"),
    }
    let mut unreachable = Vec::new();
    for event in [
        ProbeEvent::Retransmit(dead.into()),
        ProbeEvent::Retransmit(dead.into()),
        ProbeEvent::Failed(dead.into()),
    ] {
        match stack.poll_neighbor_timer(handle(0), event, Some(our_v4()), our_v6()) {
            ProbeAction::Solicit(Solicitation::Frame(frame)) => wire.push(frame),
            ProbeAction::Solicit(_) => panic!("no ARP request"),
            ProbeAction::Unreachable(packets) => unreachable.extend(packets),
        }
    }
    assert_eq!(wire.len(), 3);
    for frame in &wire {
        assert_eq!(frame[12..14], [0x08, 0x06]);
    }

    // The local destination unreachable error is for the socket.
    assert_eq!(unreachable.len(), 1);
    let orig = unreachable.remove(0).buf;
    let iface = stack.ifaces.get(0);
    let (_, error) = iface.deliver_neighbor_failure_error(orig, Some(our_v4()), our_v6()).unwrap();
    match upper(&stack, handle(0), error) {
        Some(UpperIngress::Control(ControlIngress::Error { msg_type, msg_code, quote })) => {
            assert_eq!(msg_type, control4::DST_UNREACHABLE);
            assert_eq!(msg_code, control4::HOST_UNREACHABLE);
            assert_eq!(
                deliver_icmp_error(Some((msg_type, msg_code)), quoted_datagram(&quote)),
                ErrorDelivery::Udp {
                    error: (control4::DST_UNREACHABLE, control4::HOST_UNREACHABLE),
                    local: IpEndpoint::new(our_v4().into(), 5555),
                    remote: IpEndpoint::new(dead.into(), 1000),
                }
            );
        }
        _ => panic!("the error was not delivered"),
    }
}

#[test]
fn neighbor_failure_of_an_ipv6_packet() {
    let stack = test_stack(Medium::Ethernet);
    let iface = stack.ifaces.get(0);
    let orig = ipv6_packet(our_v6(), remote_v6(), UDP, b"datagram");
    let (version, error) =
        iface.deliver_neighbor_failure_error(orig.clone(), None, our_v6()).unwrap();
    assert_eq!(version, IpVersion::Ipv6);
    let (msg_type, msg_code, _, quote) = parse_icmpv6_reply(&error, our_v6(), our_v6());
    assert_eq!(msg_type, control6::DST_UNREACHABLE);
    assert_eq!(msg_code, control6::ADDR_UNREACHABLE);
    assert_eq!(quote, orig);
    assert!(iface.deliver_neighbor_failure_error(error, None, our_v6()).is_none());
    // Neither IPv4 nor IPv6.
    assert!(iface.deliver_neighbor_failure_error(vec![0x50, 0], None, our_v6()).is_none());
}

/// An ARP request for 192.168.1.1 from `remote_hw`/`remote_ip`, as an Ethernet frame.
fn arp_request_from(remote_hw: EthernetAddress, remote_ip: Ipv4Address) -> Vec<u8> {
    let mut frame = arp::Message {
        operation: arp::OPERATION_REQUEST,
        source_hardware_addr: remote_hw,
        source_protocol_addr: remote_ip,
        target_hardware_addr: EthernetAddress([0; 6]),
        target_protocol_addr: our_v4(),
    }
    .emit();
    push_ethernet_header(&mut frame, EthernetAddress::broadcast(), remote_hw, ETHERTYPE_ARP);
    frame
}

#[test]
fn arp_request_is_answered() {
    let stack = test_stack(Medium::Ethernet);
    let iface = stack.ifaces.get(0);
    let frame = arp_request_from(REMOTE_HW, remote_v4());
    let ingress = iface.process_ethernet(&frame).unwrap();
    assert_eq!(ingress.src_addr, REMOTE_HW);
    assert_eq!(ingress.ethertype, ETHERTYPE_ARP);
    assert_eq!(ingress.upper, EthernetUpper::Arp);
    let learned = iface.process_arp(&frame[14..]).unwrap();
    assert_eq!(learned.addr, remote_v4());
    assert_eq!(learned.hardware_addr, REMOTE_HW);
    let reply = learned.reply.unwrap();
    assert_eq!(
        reply,
        vec![
            0x02, 0, 0, 0, 0, 0x02, 0x02, 0, 0, 0, 0, 0x01, 0x08, 0x06, // Ethernet
            0, 1, 8, 0, 6, 4, 0, 2, // ARP reply
            0x02, 0, 0, 0, 0, 0x01, 192, 168, 1, 1, 0x02, 0, 0, 0, 0, 0x02, 192, 168, 1, 2,
        ]
    );
    // A reply is learned from, and not answered.
    let mut answer = frame[14..].to_vec();
    answer[7] = 2;
    assert!(iface.process_arp(&answer).unwrap().reply.is_none());
    // Other operations, other targets, other networks and senders that are no hosts are ignored.
    answer[7] = 3;
    assert!(iface.process_arp(&answer).is_none());
    for (at, value) in [(27, 9), (15, 1), (8, 0x03), (0, 1), (2, 9), (4, 5), (5, 5)] {
        let mut bad = frame[14..].to_vec();
        bad[at] = value;
        assert!(iface.process_arp(&bad).is_none());
    }
    assert!(iface.process_arp(&frame[14..41]).is_none());
}

#[test]
fn test_device_full_keeps_packets_parked() {
    let mut stack = test_stack(Medium::Ethernet);
    // Two datagrams park on the unresolved neighbor. Only the first starts the resolution.
    let route = stack.route(IfaceBinding::Any, &remote_v4().into(), None).unwrap();
    for (payload, answer, first) in [
        (&b"one"[..], NeighborAnswer::NotFound, true),
        (&b"two"[..], NeighborAnswer::Pending, false),
    ] {
        let datagram = udp_datagram(our_v4().into(), 5555, remote_v4().into(), 1000, payload);
        let dispatch = stack.transmit_ip(
            &route,
            datagram,
            our_v4().into(),
            remote_v4().into(),
            IpProtocol(UDP),
            64,
            answer,
        );
        match dispatch {
            Dispatch::Parked { next_hop, start } => {
                assert_eq!(next_hop, remote_v4().into());
                assert_eq!(start, first);
            }
            _ => panic!("the packet is not parked"),
        }
    }

    // The neighbor resolves while the device is full: nothing is flushed and nothing is lost.
    assert!(stack.fill_neighbor(handle(0), remote_v4().into(), 0).is_empty());

    // Room for one: the first parked datagram goes out, the second waits.
    let neighbors = vec![Neighbor {
        addr: remote_v4().into(),
        hardware_addr: HardwareAddress::Ethernet(REMOTE_HW),
    }];
    let sent = stack.pending.flush_resolved_pending(handle(0), &neighbors, 1);
    assert_eq!(sent.len(), 1);
    assert!(sent[0].packet.buf.ends_with(b"one"));
    let sent = stack.pending.flush_resolved_pending(handle(0), &neighbors, usize::MAX);
    assert_eq!(sent.len(), 1);
    assert!(sent[0].packet.buf.ends_with(b"two"));
    let resolved = sent.into_iter().next().unwrap();
    let iface = stack.ifaces.get(0);
    let packet = resolved.packet;
    match iface.transmit_link(resolved.hardware_addr, packet.buf, packet.key.addr) {
        Dispatch::Transmit(frame) => {
            assert_eq!(&frame[0..6], REMOTE_HW.as_bytes());
            assert_eq!(&frame[6..12], OUR_HW.as_bytes());
            assert_eq!(&frame[12..14], &[0x08, 0x00]);
            assert!(frame.ends_with(b"two"));
        }
        _ => panic!("no frame"),
    }
}

#[test]
fn packets_parked_too_long_are_dropped() {
    let mut stack = test_stack(Medium::Ethernet);
    let dst: IpAddress = remote_v4().into();
    for seconds in [1, 2, 3] {
        stack.now = Instant { micros: seconds };
        let packet = ipv4_packet(our_v4(), remote_v4(), UDP, b"parked");
        let answer = NeighborAnswer::Pending;
        stack.dispatch_ip(handle(0), dst, dst, packet, ETHERTYPE_IPV4, answer);
    }
    let _poll = stack.poll(Instant { micros: 10 }, Duration { micros: 8 });
    assert_eq!(stack.now, Instant { micros: 10 });
    let sent = stack.fill_neighbor(handle(0), dst, 9);
    assert_eq!(sent.len(), 1);
    assert_eq!(sent[0].queued_at, Instant { micros: 3 });
}

#[test]
fn changing_addresses_forgets_parked_packets() {
    let mut stack = test_stack(Medium::Ethernet);
    let dst: IpAddress = remote_v4().into();
    let packet = ipv4_packet(our_v4(), remote_v4(), UDP, b"parked");
    let answer = NeighborAnswer::Pending;
    stack.dispatch_ip(handle(0), dst, dst, packet, ETHERTYPE_IPV4, answer);
    stack.purge_iface_link_state(handle(0));
    assert!(stack.fill_neighbor(handle(0), dst, 9).is_empty());
}

#[test]
fn test_ndisc_solicit_multicast_and_unicast() {
    let remote_ll = Ipv6Address::new(0xfe80, 0, 0, 0, 0, 0xff, 0xfe00, 0x2);
    let solicit = |dst_addr: Ipv6Address, target: Ipv6Address| {
        let mut message = build_ndisc(
            control6::NEIGHBOR_SOLICIT,
            0,
            target,
            1,
            HardwareAddress::Ethernet(REMOTE_HW),
        );
        control6::fill_checksum(&mut message, &remote_ll, &dst_addr, false);
        message
    };
    let stack = test_stack(Medium::Ethernet);
    let iface = stack.ifaces.get(0);
    let ll_src = Some(HardwareAddress::Ethernet(REMOTE_HW));
    for dst_addr in [our_link_local().solicited_node(), our_link_local()] {
        let message = solicit(dst_addr, our_link_local());
        let message = match iface
            .process_icmpv6(ll_src, remote_ll, dst_addr, 255, message, our_v6())
        {
            ControlIngress::NeighborSolicit(message) => message,
            _ => panic!("the solicitation is not processed"),
        };
        let ingress = iface.process_ndisc_solicit(remote_ll, dst_addr, &message).unwrap();
        assert_eq!(ingress.learned, ll_src);
        let mut bytes = ingress.reply.unwrap();
        let na = bytes[IPV6_HEADER_LEN..].to_vec();
        let ip = Ipv6Packet::new_checked(&mut bytes[..]).unwrap();
        assert_eq!(ip.src_addr(), our_link_local());
        assert_eq!(ip.dst_addr(), remote_ll);
        assert_eq!(ip.hop_limit(), 255);
        assert!(control6::verify_checksum(&na, &our_link_local(), &remote_ll));
        assert_eq!(na[0], control6::NEIGHBOR_ADVERT);
        assert_eq!(&na[8..24], &our_link_local().octets());
        assert_eq!(na[4] & control6::FLAG_SOLICITED, control6::FLAG_SOLICITED);
    }

    // A solicitation whose target is not our address is not answered, even when addressed to
    // our unicast address.
    let message = solicit(our_link_local(), remote_ll);
    let ingress = iface.process_ndisc_solicit(remote_ll, our_link_local(), &message).unwrap();
    assert!(ingress.reply.is_none());

    // Neighbor discovery is only processed with the un-decremented hop limit, on a medium with
    // link-layer addresses.
    for (ll_src, hop_limit) in [(ll_src, 254), (None, 255)] {
        let message = solicit(our_link_local(), our_link_local());
        let ingress = iface.process_icmpv6(
            ll_src,
            remote_ll,
            our_link_local(),
            hop_limit,
            message,
            our_v6(),
        );
        assert!(matches!(ingress, ControlIngress::Drop));
    }
}

#[test]
fn neighbor_adverts_are_learned_from() {
    let stack = test_stack(Medium::Ethernet);
    let iface = stack.ifaces.get(0);
    let remote = HardwareAddress::Ethernet(REMOTE_HW);
    let advert = |flags: u8, addr: HardwareAddress| {
        build_ndisc(control6::NEIGHBOR_ADVERT, flags, remote_v6(), 2, addr)
    };
    assert_eq!(iface.process_ndisc_advert(&advert(0x40, remote), false), Some(remote));
    // A known neighbor is only replaced by an advertisement that says so.
    assert_eq!(iface.process_ndisc_advert(&advert(0x40, remote), true), None);
    assert_eq!(iface.process_ndisc_advert(&advert(0x60, remote), true), Some(remote));
    // A broadcast address, a code, no option and a cut option are not learned from.
    let broadcast = HardwareAddress::Ethernet(EthernetAddress::broadcast());
    assert_eq!(iface.process_ndisc_advert(&advert(0x60, broadcast), false), None);
    let mut coded = advert(0x60, remote);
    coded[1] = 1;
    assert_eq!(iface.process_ndisc_advert(&coded, false), None);
    assert_eq!(iface.process_ndisc_advert(&advert(0x60, remote)[..24], false), None);
    assert_eq!(iface.process_ndisc_advert(&advert(0x60, remote)[..30], false), None);
    assert_eq!(iface.process_ndisc_advert(&advert(0x60, remote)[..23], false), None);
}

#[test]
fn solicitations_go_to_the_solicited_node_group() {
    let mut stack = test_stack(Medium::Ethernet);
    let event = ProbeEvent::Retransmit(remote_v6().into());
    let (dst_addr, buf) = match stack.poll_neighbor_timer(handle(0), event, None, our_v6()) {
        ProbeAction::Solicit(Solicitation::Packet { dst_addr, buf }) => (dst_addr, buf),
        _ => panic!("no neighbor solicitation"),
    };
    assert_eq!(dst_addr, remote_v6().solicited_node());
    assert!(control6::verify_checksum(&buf[40..], &our_v6(), &dst_addr));
    // It is never parked in turn.
    let dst: IpAddress = dst_addr.into();
    let answer = NeighborAnswer::NotFound;
    match stack.transmit_ip_on(handle(0), dst, dst, buf, EthernetProtocol(0x86dd), answer) {
        Dispatch::Transmit(frame) => {
            assert_eq!(&frame[0..6], &[0x33, 0x33, 0xff, 0x00, 0x00, 0x02]);
        }
        _ => panic!("the solicitation is not transmitted"),
    }
    // Without an address to ask from there is no ARP request.
    let event = ProbeEvent::Retransmit(remote_v4().into());
    let action = stack.poll_neighbor_timer(handle(0), event, None, our_v6());
    assert!(matches!(action, ProbeAction::Solicit(Solicitation::Nothing)));
}

#[test]
fn broadcast_and_multicast_hardware_addresses() {
    let mut stack = test_stack(Medium::Ethernet);
    for (dst, octets) in [
        (Ipv4Address::broadcast(), [0xff; 6]),
        (Ipv4Address::new(192, 168, 1, 255), [0xff; 6]),
        (Ipv4Address::new(224, 128, 0, 251), [0x01, 0x00, 0x5e, 0x00, 0x00, 0xfb]),
    ] {
        let packet = ipv4_packet(our_v4(), dst, UDP, b"all");
        let answer = NeighborAnswer::NotFound;
        match stack.dispatch_ip(handle(0), dst.into(), dst.into(), packet, ETHERTYPE_IPV4, answer)
        {
            Dispatch::Transmit(frame) => assert_eq!(frame[0..6], octets),
            _ => panic!("not transmitted"),
        }
    }
    let mut stack = test_stack(Medium::Ieee802154);
    let dst: IpAddress = ipv6::link_local_all_nodes().into();
    let packet = ipv6_packet(our_v6(), ipv6::link_local_all_nodes(), UDP, b"all");
    let answer = NeighborAnswer::NotFound;
    match stack.dispatch_ip(handle(0), dst, dst, packet, EthernetProtocol(0x86dd), answer) {
        Dispatch::Ieee802154 { dst_addr, .. } => assert!(dst_addr.is_broadcast()),
        _ => panic!("not handed on"),
    }
    // The medium is IPv6-only.
    let packet = ipv4_packet(our_v4(), remote_v4(), UDP, b"dropped");
    let dst: IpAddress = remote_v4().into();
    let dispatch = stack.dispatch_ip(handle(0), dst, dst, packet, ETHERTYPE_IPV4, answer);
    assert!(matches!(dispatch, Dispatch::Drop));
}

#[test]
fn packets_larger_than_the_mtu() {
    for medium in [Medium::Ip, Medium::Ethernet] {
        let mut stack = test_stack_inner(medium, 576, ChecksumCapabilities::default());
        let answer = NeighborAnswer::Found(HardwareAddress::Ethernet(REMOTE_HW));
        let answer = match medium {
            Medium::Ethernet => answer,
            _ => NeighborAnswer::NotFound,
        };
        for len in [100usize, 576, 577, 1500] {
            let route = stack.route(IfaceBinding::Any, &remote_v4().into(), None).unwrap();
            assert_eq!(route.ip_mtu, 576);
            let payload = vec![1; len - IPV4_HEADER_LEN];
            let dispatch = stack.transmit_ip(
                &route,
                payload,
                our_v4().into(),
                remote_v4().into(),
                IpProtocol(UDP),
                64,
                answer,
            );
            match dispatch {
                Dispatch::Transmit(frame) => {
                    assert!(len <= 576);
                    assert!(frame.len() == len || frame.len() == len + 14);
                }
                Dispatch::Fragment(packet) => {
                    assert!(len > 576);
                    assert_eq!(packet.len(), len);
                }
                _ => panic!("neither sent nor fragmented"),
            }
        }
        // IPv6 packets are not fragmented.
        let route = stack.route(IfaceBinding::Any, &remote_v6().into(), None).unwrap();
        let dispatch = stack.transmit_ip(
            &route,
            vec![1; 600],
            our_v6().into(),
            remote_v6().into(),
            IpProtocol(UDP),
            64,
            answer,
        );
        assert!(matches!(dispatch, Dispatch::Drop));
        // Neither are addresses of two families mixed.
        let dispatch = stack.transmit_ip(
            &route,
            vec![1; 60],
            our_v4().into(),
            remote_v6().into(),
            IpProtocol(UDP),
            64,
            answer,
        );
        assert!(matches!(dispatch, Dispatch::Drop));
    }
}

/// Corrupt the checksum field at `offset` of `packet`.
fn corrupt_checksum(packet: &mut [u8], offset: usize) {
    packet[offset] ^= 0xff;
    packet[offset + 1] ^= 0xff;
}

/// The checksum field at `offset` of `packet`.
fn checksum_at(packet: &[u8], offset: usize) -> u16 {
    u16::from_be_bytes([packet[offset], packet[offset + 1]])
}

const IPV4_CHECKSUM: usize = 10;
const ICMP_CHECKSUM: usize = 2;
const UDP_CHECKSUM: usize = 6;
const TCP_CHECKSUM: usize = 16;

#[test]
fn test_checksum_offload_rx_ipv4() {
    let request = icmpv4_echo(control4::ECHO_REQUEST, 0x1234, 7, b"ping");
    let mut packet = ipv4_packet(remote_v4(), our_v4(), ICMP, &request);
    corrupt_checksum(&mut packet, IPV4_CHECKSUM);

    let mut caps = ChecksumCapabilities::default();
    caps.ipv4 = ChecksumOffload::both();
    let mut stack = test_stack_inner(Medium::Ip, 1500, caps);
    assert!(inject(&mut stack, handle(0), packet.clone()).is_some());

    let mut stack = test_stack(Medium::Ip);
    assert!(inject(&mut stack, handle(0), packet).is_none());
}

#[test]
fn test_checksum_offload_rx_icmpv4() {
    let mut request = icmpv4_echo(control4::ECHO_REQUEST, 0x1234, 7, b"ping");
    corrupt_checksum(&mut request, ICMP_CHECKSUM);
    let packet = ipv4_packet(remote_v4(), our_v4(), ICMP, &request);

    let mut caps = ChecksumCapabilities::default();
    caps.icmpv4 = ChecksumOffload::both();
    let mut stack = test_stack_inner(Medium::Ip, 1500, caps);
    assert!(inject(&mut stack, handle(0), packet.clone()).is_some());

    let mut stack = test_stack(Medium::Ip);
    assert!(inject(&mut stack, handle(0), packet).is_none());
}

#[test]
fn test_checksum_offload_rx_icmpv6() {
    let mut request =
        icmpv6_echo(control6::ECHO_REQUEST, 0x1234, 7, b"ping", remote_v6(), our_v6());
    corrupt_checksum(&mut request, ICMP_CHECKSUM);
    let packet = ipv6_packet(remote_v6(), our_v6(), ICMPV6, &request);

    let mut caps = ChecksumCapabilities::default();
    caps.icmpv6 = ChecksumOffload::both();
    let mut stack = test_stack_inner(Medium::Ip, 1500, caps);
    assert!(inject(&mut stack, handle(0), packet.clone()).is_some());

    let mut stack = test_stack(Medium::Ip);
    assert!(inject(&mut stack, handle(0), packet).is_none());
}

/// A SYN from the remote host, checksum filled in.
fn syn_segment() -> Vec<u8> {
    let mut bytes = vec![0; 20];
    let mut packet = TcpPacket::new_unchecked(&mut bytes[..]);
    packet.set_src_port(1234);
    packet.set_dst_port(80);
    packet.set_header_len(20);
    packet.set_syn(true);
    packet.set_window_len(1000);
    packet.fill_checksum(&remote_v4().into(), &our_v4().into());
    bytes
}

#[test]
fn test_checksum_offload_rx_tcp() {
    let mut segment = syn_segment();
    corrupt_checksum(&mut segment, TCP_CHECKSUM);
    let src: IpAddress = remote_v4().into();
    let dst: IpAddress = our_v4().into();

    let syn = Some(TcpControl::Syn);

    let mut caps = ChecksumCapabilities::default();
    caps.tcp = ChecksumOffload::both();
    let stack = test_stack_inner(Medium::Ip, 1500, caps);
    assert_eq!(
        stack.process_tcp(handle(0), src, dst, segment.clone(), syn),
        TcpIngress::Listeners { reset: true }
    );

    let stack = test_stack(Medium::Ip);
    assert_eq!(stack.process_tcp(handle(0), src, dst, segment, syn), TcpIngress::Drop);
}

#[test]
fn test_checksum_offload_tx_ipv4() {
    let mut caps = ChecksumCapabilities::default();
    caps.ipv4 = ChecksumOffload::both();
    let mut stack = test_stack_inner(Medium::Ip, 1500, caps);
    let datagram = udp_datagram(our_v4().into(), 5000, remote_v4().into(), 5000, b"hello");
    let route = stack.route(IfaceBinding::Any, &remote_v4().into(), None).unwrap();
    let dispatch = stack.transmit_ip(
        &route,
        datagram,
        our_v4().into(),
        remote_v4().into(),
        IpProtocol(UDP),
        64,
        NeighborAnswer::NotFound,
    );
    match dispatch {
        Dispatch::Transmit(frame) => {
            assert_eq!(checksum_at(&frame, IPV4_CHECKSUM), 0);
            // The UDP checksum is not offloaded, so it is still there.
            let src: IpAddress = our_v4().into();
            let dst: IpAddress = remote_v4().into();
            assert!(udp::verify_checksum(&frame[IPV4_HEADER_LEN..], &src, &dst));
        }
        _ => panic!("not transmitted"),
    }
}

#[test]
fn test_checksum_offload_tx_icmpv4() {
    let mut caps = ChecksumCapabilities::default();
    caps.icmpv4 = ChecksumOffload::both();
    let mut stack = test_stack_inner(Medium::Ip, 1500, caps);

    let request = icmpv4_echo(control4::ECHO_REQUEST, 0x1234, 7, b"ping");
    let packet = ipv4_packet(remote_v4(), our_v4(), ICMP, &request);
    let (_, frame) = inject(&mut stack, handle(0), packet).unwrap();
    assert_eq!(checksum_at(&frame, IPV4_HEADER_LEN + ICMP_CHECKSUM), 0);

    // A protocol unreachable error, quoting a packet of an unknown protocol.
    let packet = ipv4_packet(remote_v4(), our_v4(), 0xfe, b"payload");
    let (_, frame) = inject(&mut stack, handle(0), packet).unwrap();
    assert_eq!(checksum_at(&frame, IPV4_HEADER_LEN + ICMP_CHECKSUM), 0);
}

#[test]
fn test_checksum_offload_tx_icmpv6() {
    let mut caps = ChecksumCapabilities::default();
    caps.icmpv6 = ChecksumOffload::both();
    let mut stack = test_stack_inner(Medium::Ip, 1500, caps);
    let request = icmpv6_echo(control6::ECHO_REQUEST, 0x1234, 7, b"ping", remote_v6(), our_v6());
    let packet = ipv6_packet(remote_v6(), our_v6(), ICMPV6, &request);
    let (_, frame) = inject(&mut stack, handle(0), packet).unwrap();
    assert_eq!(checksum_at(&frame, IPV6_HEADER_LEN + ICMP_CHECKSUM), 0);

    // The neighbor solicitation an Ethernet interface sends to resolve a peer.
    let stack = test_stack_inner(Medium::Ethernet, 1500, caps);
    let packet = stack.ifaces.get(0).transmit_ndisc_solicit(remote_v6(), our_v6());
    assert_eq!(checksum_at(&packet, IPV6_HEADER_LEN + ICMP_CHECKSUM), 0);
}

#[test]
fn segments_reach_the_socket_of_their_connection() {
    let mut stack = test_stack_two_ifaces();
    let src: IpAddress = remote_v4().into();
    let dst: IpAddress = our_v4().into();
    let unspecified: IpAddress = Ipv4Address::unspecified().into();
    let syn = Some(TcpControl::Syn);
    let tuple = Tuple {
        local: IpEndpoint { addr: dst, port: 80 },
        remote: IpEndpoint { addr: src, port: 1234 },
    };
    // A socket that is bound to the other interface, one without a connection, and the one.
    let bound = stack.add_tcp_socket(4096, 4096).unwrap();
    stack.tcp_socket(bound).tuple = Some(tuple);
    stack.tcp_socket(bound).binding = IfaceBinding::Iface(handle(1));
    let _idle = stack.add_tcp_socket(4096, 4096).unwrap();
    let open = stack.add_tcp_socket(4096, 4096).unwrap();
    stack.tcp_socket(open).tuple = Some(tuple);
    assert_eq!(
        stack.process_tcp(handle(0), src, dst, syn_segment(), syn),
        TcpIngress::Socket(open)
    );
    assert_eq!(
        stack.process_tcp(handle(1), src, dst, syn_segment(), syn),
        TcpIngress::Socket(bound)
    );
    // What does not parse is dropped, with a socket and without one.
    let unparsed = stack.process_tcp(handle(0), src, dst, syn_segment(), None);
    assert_eq!(unparsed, TcpIngress::Drop);
    stack.remove_tcp_socket(open);
    let unparsed = stack.process_tcp(handle(0), src, dst, syn_segment(), None);
    assert_eq!(unparsed, TcpIngress::Drop);
    assert_eq!(
        stack.process_tcp(handle(0), src, dst, syn_segment(), syn),
        TcpIngress::Listeners { reset: true }
    );
    // An RST is never answered with an RST.
    let mut reset = syn_segment();
    {
        let mut packet = TcpPacket::new_unchecked(&mut reset[..]);
        packet.set_rst(true);
        packet.fill_checksum(&src, &dst);
    }
    assert_eq!(
        stack.process_tcp(handle(0), src, dst, reset, Some(TcpControl::Rst)),
        TcpIngress::Listeners { reset: false }
    );
    // Malformed, and unspecified addresses.
    assert_eq!(stack.process_tcp(handle(0), src, dst, vec![0; 19], syn), TcpIngress::Drop);
    assert_eq!(
        stack.process_tcp(handle(0), unspecified, dst, syn_segment(), syn),
        TcpIngress::Drop
    );
    assert_eq!(
        stack.process_tcp(handle(0), src, unspecified, syn_segment(), syn),
        TcpIngress::Drop
    );
}

#[test]
fn dhcp_messages_are_intercepted() {
    let stack = test_stack(Medium::Ethernet);
    let iface = stack.ifaces.get(0);
    let offered = Ipv4Address::new(10, 9, 8, 7);
    let client = DhcpRoles { client: true, server: false };
    let server = DhcpRoles { client: false, server: true };

    // The client sees replies to an address that is not ours yet.
    let datagram = udp_datagram(remote_v4().into(), 67, offered.into(), 68, b"offer");
    let packet = ipv4_packet(remote_v4(), offered, UDP, &datagram);
    match iface.process_ipv4(client, None, packet.clone()) {
        Ipv4Ingress::DhcpClient { src_addr, payload } => {
            assert_eq!(src_addr, remote_v4());
            assert_eq!(payload, b"offer");
        }
        _ => panic!("not for the client"),
    }
    assert!(matches!(iface.process_ipv4(no_dhcp(), None, packet), Ipv4Ingress::Drop));
    let mut bad = datagram.clone();
    corrupt_checksum(&mut bad, UDP_CHECKSUM);
    let packet = ipv4_packet(remote_v4(), offered, UDP, &bad);
    assert!(matches!(iface.process_ipv4(client, None, packet), Ipv4Ingress::Drop));

    // The server sees what is sent to it or to broadcast.
    let broadcast = Ipv4Address::broadcast();
    let unspecified = Ipv4Address::unspecified();
    let datagram = udp_datagram(unspecified.into(), 68, broadcast.into(), 67, b"discover");
    let packet = ipv4_packet(unspecified, broadcast, UDP, &datagram);
    match iface.process_ipv4(server, None, packet.clone()) {
        Ipv4Ingress::DhcpServer { src_addr, payload } => {
            assert_eq!(src_addr, unspecified);
            assert_eq!(payload, b"discover");
        }
        _ => panic!("not for the server"),
    }
    // Without a server it is an ordinary datagram.
    match iface.process_ipv4(client, Some(REMOTE_HW), packet) {
        Ipv4Ingress::Accept(accepted) => {
            assert!(accepted.stack_wants);
            assert_eq!(accepted.refresh, None);
            assert_eq!(accepted.next_header, IpProtocol(UDP));
        }
        _ => panic!("not accepted"),
    }
}

#[test]
fn ipv4_packets_that_are_not_processed() {
    let stack = test_stack(Medium::Ip);
    let iface = stack.ifaces.get(0);
    let drop = |packet: Vec<u8>| {
        matches!(iface.process_ipv4(no_dhcp(), None, packet), Ipv4Ingress::Drop)
    };
    // Not for us, from a multicast source, cut short, of another version.
    let other = Ipv4Address::new(192, 168, 1, 77);
    assert!(drop(ipv4_packet(remote_v4(), other, UDP, b"x")));
    assert!(drop(ipv4_packet(Ipv4Address::new(224, 0, 0, 5), our_v4(), UDP, b"x")));
    let packet = ipv4_packet(remote_v4(), our_v4(), UDP, b"x");
    assert!(drop(packet[..20].to_vec()));
    let mut wrong = packet.clone();
    wrong[0] = 0x65;
    assert!(drop(wrong));
    assert!(!drop(packet.clone()));
    // A fragment goes to reassembly.
    let mut fragment = packet.clone();
    {
        let mut ip = Ipv4Packet::new_unchecked(&mut fragment[..]);
        ip.set_more_frags(true);
        ip.fill_checksum();
    }
    assert!(matches!(
        iface.process_ipv4(no_dhcp(), None, fragment),
        Ipv4Ingress::Reassemble(_)
    ));
    // Padding is stripped, and the neighbor that sent the packet is alive.
    let mut padded = packet.clone();
    padded.extend_from_slice(&[0; 25]);
    match iface.process_ipv4(no_dhcp(), Some(REMOTE_HW), padded) {
        Ipv4Ingress::Accept(accepted) => {
            assert_eq!(accepted.packet, packet);
            assert_eq!(accepted.refresh, Some(REMOTE_HW));
            assert_eq!(accepted.src_addr, remote_v4());
            assert_eq!(accepted.dst_addr, our_v4());
        }
        _ => panic!("not accepted"),
    }
    // IGMP and TCP reach their layers.
    let group = Ipv4Address::new(224, 0, 0, 1);
    let igmp = upper(&stack, handle(0), ipv4_packet(remote_v4(), group, IGMP, b"query"));
    assert!(matches!(igmp, Some(UpperIngress::Igmp(message)) if message == b"query"));
    let tcp = upper(&stack, handle(0), ipv4_packet(remote_v4(), our_v4(), TCP, b"segment"));
    assert!(matches!(tcp, Some(UpperIngress::Tcp(segment)) if segment == b"segment"));
}

#[test]
fn echo_requests_to_broadcast_are_answered_from_our_address() {
    let mut stack = test_stack(Medium::Ip);
    let bcast = Ipv4Address::new(192, 168, 1, 255);
    let request = icmpv4_echo(control4::ECHO_REQUEST, 1, 2, b"who");
    let packet = ipv4_packet(remote_v4(), bcast, ICMP, &request);
    let (_, frame) = inject(&mut stack, handle(0), packet).unwrap();
    let (msg_type, _, data) = parse_icmpv4_reply(&frame, our_v4(), remote_v4());
    assert_eq!(msg_type, control4::ECHO_REPLY);
    assert_eq!(data, b"who");
    // Not those to a multicast group, and not those with a code.
    let group = Ipv4Address::new(224, 0, 0, 1);
    let packet = ipv4_packet(remote_v4(), group, ICMP, &request);
    assert!(inject(&mut stack, handle(0), packet).is_none());
    let mut coded = request.clone();
    coded[1] = 1;
    control4::fill_checksum(&mut coded, false);
    let packet = ipv4_packet(remote_v4(), our_v4(), ICMP, &coded);
    assert!(inject(&mut stack, handle(0), packet).is_none());
}

#[test]
fn routers_and_listeners_are_heard_on_the_link_only() {
    let stack = test_stack(Medium::Ethernet);
    let iface = stack.ifaces.get(0);
    let ll_src = Some(HardwareAddress::Ethernet(REMOTE_HW));
    let all_nodes = ipv6::link_local_all_nodes();
    let deliver = |msg_type: u8, src: Ipv6Address, dst: Ipv6Address, hop_limit: u8| {
        let mut message = vec![msg_type, 0, 0, 0, 0, 0, 0, 0];
        control6::fill_checksum(&mut message, &src, &dst, false);
        iface.process_icmpv6(ll_src, src, dst, hop_limit, message, our_v6())
    };
    let router = link_local_remote_v6();
    assert!(matches!(
        deliver(control6::ROUTER_ADVERT, router, all_nodes, 255),
        ControlIngress::RouterAdvert(_)
    ));
    assert!(matches!(
        deliver(control6::ROUTER_ADVERT, router, our_link_local(), 255),
        ControlIngress::RouterAdvert(_)
    ));
    for (src, dst, hop_limit) in [
        (router, all_nodes, 254),
        (remote_v6(), all_nodes, 255),
        (router, our_v6(), 255),
    ] {
        assert!(matches!(
            deliver(control6::ROUTER_ADVERT, src, dst, hop_limit),
            ControlIngress::Drop
        ));
    }
    assert!(matches!(
        deliver(control6::MLD_QUERY, router, all_nodes, 1),
        ControlIngress::MldQuery(_)
    ));
    assert!(matches!(
        deliver(control6::MLD_QUERY, router, all_nodes, 2),
        ControlIngress::Drop
    ));
    assert!(matches!(
        deliver(control6::MLD_QUERY, remote_v6(), all_nodes, 1),
        ControlIngress::Drop
    ));
    assert!(matches!(
        deliver(control6::ECHO_REPLY, router, our_v6(), 64),
        ControlIngress::Drop
    ));
    assert!(matches!(
        deliver(control6::DST_UNREACHABLE, router, our_v6(), 64),
        ControlIngress::Error { msg_type: 1, .. }
    ));
}

#[test]
fn errors_are_delivered_to_the_flow_that_provoked_them() {
    let quoted = QuotedPacket {
        src_addr: our_v4().into(),
        src_port: 5000,
        dst_addr: remote_v4().into(),
        dst_port: 53,
        protocol: IpProtocol(UDP),
        tcp_seq: None,
    };
    let local = IpEndpoint::new(our_v4().into(), 5000);
    let remote = IpEndpoint::new(remote_v4().into(), 53);
    let error = "unreachable";
    let deliver = |quoted: Option<QuotedPacket>| deliver_icmp_error(Some(error), quoted);
    assert_eq!(deliver(Some(quoted)), ErrorDelivery::Udp { error, local, remote });
    // The quoted sequence number goes to the TCP socket.
    let tcp_seq = Some(TcpSeqNumber(-7));
    let tcp = QuotedPacket { protocol: IpProtocol(TCP), tcp_seq, ..quoted };
    assert_eq!(deliver(Some(tcp)), ErrorDelivery::Tcp { error, local, remote, tcp_seq });
    let other = QuotedPacket { protocol: IpProtocol(ICMP), ..quoted };
    assert_eq!(deliver(Some(other)), ErrorDelivery::Ignore);
    assert_eq!(deliver(None), ErrorDelivery::Ignore);
    // A message that means nothing to a socket.
    assert_eq!(deliver_icmp_error(None::<u8>, Some(quoted)), ErrorDelivery::Ignore);
}

#[test]
fn frames_for_other_hosts_are_ignored() {
    let stack = test_stack(Medium::Ethernet);
    let iface = stack.ifaces.get(0);
    let frame_to = |dst: EthernetAddress, ethertype: u16| {
        let mut frame = b"payload".to_vec();
        push_ethernet_header(&mut frame, dst, REMOTE_HW, EthernetProtocol(ethertype));
        frame
    };
    let frame = frame_to(OUR_HW, 0x86dd);
    assert_eq!(iface.process_ethernet(&frame).unwrap().upper, EthernetUpper::Ipv6);
    let frame = frame_to(EthernetAddress([0x33, 0x33, 0, 0, 0, 1]), 0x0800);
    assert_eq!(iface.process_ethernet(&frame).unwrap().upper, EthernetUpper::Ipv4);
    let frame = frame_to(OUR_HW, 0x88cc);
    assert_eq!(iface.process_ethernet(&frame).unwrap().upper, EthernetUpper::Unsupported);
    assert!(iface.process_ethernet(&frame_to(REMOTE_HW, 0x0800)).is_none());
    assert!(iface.process_ethernet(&frame[..13]).is_none());
    assert_eq!(process(Medium::Ethernet), FrameKind::Ethernet);
    assert_eq!(process(Medium::Ip), FrameKind::Ip);
    assert_eq!(process(Medium::Ieee802154), FrameKind::Ieee802154);
    assert_eq!(process_ip(&[]), None);
    assert_eq!(process_ip(&[0x50]), None);
}

#[test]
fn routes_honor_the_binding() {
    let mut stack = test_stack_two_ifaces();
    let far: IpAddress = Ipv4Address::new(8, 8, 8, 8).into();
    let gateway: IpAddress = Ipv4Address::new(10, 0, 0, 254).into();
    let table = Some(TableRoute { iface: handle(1), via_router: gateway });
    // On-link: straight to the destination.
    let route = stack.route(IfaceBinding::Any, &remote_v4_b().into(), table).unwrap();
    assert_eq!(route.iface, handle(1));
    assert_eq!(route.next_hop, remote_v4_b().into());
    // Else by the routing table, if it has an entry.
    let route = stack.route(IfaceBinding::Any, &far, table).unwrap();
    assert_eq!(route.iface, handle(1));
    assert_eq!(route.next_hop, gateway);
    assert!(stack.route(IfaceBinding::Any, &far, None).is_none());
    // A bound socket does not use another interface.
    let bound = IfaceBinding::Iface(handle(0));
    assert!(stack.route(bound, &remote_v4_b().into(), None).is_none());
    // Broadcast goes out of the first interface, or the bound one.
    let broadcast: IpAddress = Ipv4Address::broadcast().into();
    let first = stack.route(IfaceBinding::Any, &broadcast, None).unwrap();
    assert_eq!(first.iface, handle(0));
    let bound = IfaceBinding::Iface(handle(1));
    assert_eq!(stack.route(bound, &broadcast, None).unwrap().iface, handle(1));
    // A binding whose interface was removed routes nothing.
    stack.remove_iface(handle(1));
    assert!(stack.route(bound, &broadcast, None).is_none());
    assert!(stack.first_ethernet_iface().is_none());
    assert!(stack.has_ip_addr(our_v4().into()));
    assert!(!stack.has_ip_addr(Ipv4Address::new(10, 0, 0, 1).into()));
    // The sender of a packet may be on no route at all.
    assert!(stack.route_reply(handle(0), &far, None).is_none());
    let (route, caps) = stack
        .route_reply(handle(0), &link_local_remote_v6().into(), None)
        .unwrap();
    assert_eq!(route.iface, handle(0));
    assert_eq!(caps, ChecksumCapabilities::default());
}

#[test]
fn packets_sent_whatever_the_routes_are() {
    let stack = test_stack(Medium::Ethernet);
    let iface = stack.ifaces.get(0);
    let gateway: IpAddress = Ipv4Address::new(192, 168, 1, 254).into();
    let table = Some(TableRoute { iface: handle(0), via_router: gateway });
    let far = Ipv4Address::new(8, 8, 8, 8);
    let unspecified = Ipv4Address::unspecified();
    let (next_hop, _) = iface.transmit_ipv4_on(our_v4(), far, vec![], table);
    assert_eq!(next_hop, gateway);
    let (next_hop, _) = iface.transmit_ipv4_on(our_v4(), far, vec![], None);
    assert_eq!(next_hop, far.into());
    let (next_hop, _) = iface.transmit_ipv4_on(our_v4(), remote_v4(), vec![], table);
    assert_eq!(next_hop, remote_v4().into());
    let broadcast = Ipv4Address::broadcast();
    let (next_hop, mut packet) =
        iface.transmit_ipv4_on(unspecified, broadcast, b"discover".to_vec(), table);
    assert_eq!(next_hop, broadcast.into());
    let ip = Ipv4Packet::new_checked(&mut packet[..]).unwrap();
    assert!(ip.verify_checksum());
    assert_eq!(ip.next_header(), IpProtocol(UDP));
    assert_eq!(ip.hop_limit(), 64);
    assert_eq!(ip.payload(), b"discover");
}

#[test]
fn bindings_and_filters_are_scored() {
    assert_eq!(IfaceBinding::default(), IfaceBinding::Any);
    assert_eq!(IfaceBinding::from(Some(handle(3))), IfaceBinding::Iface(handle(3)));
    assert_eq!(IfaceBinding::from(None), IfaceBinding::Any);
    assert_eq!(IfaceBinding::Iface(handle(3)).iface(), Some(handle(3)));
    assert_eq!(IfaceBinding::Any.match_score(handle(1)), Some(0));
    assert_eq!(IfaceBinding::Iface(handle(1)).match_score(handle(1)), Some(1));
    assert_eq!(IfaceBinding::Iface(handle(1)).match_score(handle(2)), None);
    assert!(!IfaceBinding::Iface(handle(1)).matches(handle(2)));

    let filter = |addr: Option<IpAddress>| IpListenEndpoint { addr, port: 80 };
    let addr: IpAddress = our_v4().into();
    assert_eq!(addr_score(&filter(None), &addr), Some(0));
    assert_eq!(addr_score(&filter(Some(Ipv4Address::unspecified().into())), &addr), Some(1));
    assert_eq!(addr_score(&filter(Some(Ipv6Address::unspecified().into())), &addr), None);
    assert_eq!(addr_score(&filter(Some(addr)), &addr), Some(2));
    assert_eq!(addr_score(&filter(Some(remote_v4().into())), &addr), None);
}

#[test]
fn new_interfaces_have_their_link_local_address() {
    let stack = test_stack(Medium::Ethernet);
    let iface = stack.ifaces.get(0);
    assert_eq!(iface.hardware_addr, HardwareAddress::Ethernet(OUR_HW));
    assert!(iface.has_ip_addr(our_link_local().into()));
    assert!(iface.has_multicast_group(our_link_local().solicited_node().into()));
    assert!(iface.has_multicast_group(ipv6::link_local_all_nodes().into()));
    assert!(iface.has_solicited_node(our_link_local().solicited_node()));
    assert!(!iface.has_ip_addr(remote_v4().into()));
    // No link-local on an IP-medium interface.
    let stack = test_stack(Medium::Ip);
    assert_eq!(stack.ifaces.get(0).ip_addrs.len(), 2);
    assert_eq!(stack.ifaces.get(0).last_link_state, LinkState::Down);
}

#[test]
fn slots_are_reused() {
    let mut stack = test_stack_two_ifaces();
    assert_eq!(stack.ifaces(), vec![0, 1]);
    stack.remove_iface(handle(0));
    assert_eq!(stack.ifaces(), vec![1]);
    let caps = Capabilities {
        medium: Medium::Ethernet,
        ip_mtu: 1500,
        checksum: ChecksumCapabilities::default(),
    };
    let added = stack.add_iface(caps, ReportedAddress::Ethernet(OUR_HW.0)).unwrap();
    assert_eq!(added, handle(0));
    assert_eq!(stack.first_ethernet_iface(), Some(handle(0)));

    let first = stack.add_udp_socket().unwrap();
    let second = stack.add_udp_socket().unwrap();
    assert_ne!(first, second);
    stack.remove_udp_socket(first);
    assert_eq!(stack.udp_sockets(), vec![second.index]);
    assert_eq!(stack.add_udp_socket().unwrap(), first);
    let raw = stack.add_raw_socket().unwrap();
    stack.raw_socket(raw).binding = IfaceBinding::Iface(handle(1));
    assert_eq!(stack.raw_sockets(), vec![raw.index]);
    let listener = stack.add_tcp_listener().unwrap();
    assert_eq!(stack.tcp_listeners(), vec![listener.index]);
    stack.remove_tcp_listener(listener);
    assert!(stack.tcp_listeners().is_empty());
}

#[test]
fn hostname_is_kept() {
    let mut stack = Stack::new();
    assert_eq!(stack.hostname(), None);
    stack.set_hostname("gateway");
    assert_eq!(stack.hostname(), Some("gateway"));
    stack.set_hostname("x");
    assert_eq!(stack.hostname(), Some("x"));
    stack.set_hostname("");
    assert_eq!(stack.hostname(), None);
    let longest = "a".repeat(63);
    stack.set_hostname(&longest);
    assert_eq!(stack.hostname(), Some(&longest[..]));
}

#[test]
fn tcp_replies_are_routed_before_their_checksum_is_filled_in() {
    let mut stack = test_stack_two_ifaces();
    let reset = |src: Ipv4Address| {
        let mut bytes = vec![0xaa; 20];
        let mut packet = TcpPacket::new_unchecked(&mut bytes);
        packet.set_src_port(80);
        packet.set_dst_port(1000);
        packet.set_header_len(20);
        packet.clear_flags();
        packet.set_rst(true);
        (bytes, IpAddress::from(src))
    };
    // A reply to the network of the other interface leaves through that one.
    let (bytes, src) = reset(our_v4());
    let dst = IpAddress::from(remote_v4_b());
    let (route, mut packet) =
        stack.transmit_tcp_reply(handle(0), bytes, src, dst, None).unwrap();
    assert_eq!(route.iface, handle(1));
    let ip = Ipv4Packet::new_checked(&mut packet).unwrap();
    assert_eq!(ip.next_header(), IpProtocol(TCP));
    assert_eq!(ip.hop_limit(), 64);
    let mut segment = packet[IPV4_HEADER_LEN..].to_vec();
    let tcp = TcpPacket::new_checked(&mut segment).unwrap();
    assert!(tcp.rst() && tcp.verify_checksum(&src, &dst));

    // It is the egress interface whose capabilities count.
    stack.iface(handle(1)).checksum.tcp = ChecksumOffload::both();
    let (bytes, src) = reset(our_v4());
    let (_, packet) = stack.transmit_tcp_reply(handle(0), bytes, src, dst, None).unwrap();
    assert_eq!(packet[IPV4_HEADER_LEN + 16..IPV4_HEADER_LEN + 18], [0, 0]);

    // No route.
    let (bytes, src) = reset(our_v4());
    let far = IpAddress::from(Ipv4Address::new(8, 8, 8, 8));
    assert!(stack.transmit_tcp_reply(handle(0), bytes, src, far, None).is_none());
}

#[test]
fn sockets_come_and_go() {
    let mut stack = Stack::new();
    let tcp = stack.add_tcp_socket_with_bufs(vec![0; 8], vec![0; 4]).unwrap();
    assert_eq!(stack.tcp_sockets(), vec![tcp.index]);
    assert!(stack.tcp_socket(tcp).tuple.is_none());
    let udp = stack.add_udp_socket().unwrap();
    stack.udp_socket(udp).binding = IfaceBinding::Iface(handle(3));
    assert_eq!(stack.udp_socket(udp).binding.iface(), Some(handle(3)));
    let listener = stack.add_tcp_listener().unwrap();
    assert_eq!(stack.tcp_listener(listener).binding, IfaceBinding::Any);
    let raw = stack.add_raw_socket().unwrap();
    stack.remove_raw_socket(raw);
    assert!(stack.raw_sockets().is_empty());
    // A slot that was freed is used again.
    assert_eq!(stack.add_raw_socket().unwrap().index, raw.index);
}

/// The packet of a reply that leaves through the only interface.
fn reply_packet(stack: &Stack, reply: Option<Reply>) -> Option<Vec<u8>> {
    Some(stack.transmit_reply(handle(0), reply?, None)?.1)
}

#[test]
fn test_icmpv4_port_unreachable() {
    let stack = test_stack(Medium::Ip);
    let iface = stack.ifaces.get(0);
    let datagram = udp_datagram(remote_v4().into(), 4000, our_v4().into(), 7, b"echo?");
    let packet = ipv4_packet(remote_v4(), our_v4(), UDP, &datagram);

    // Without a socket bound to the port.
    let frame = reply_packet(&stack, iface.port_unreachable_v4(packet.clone(), false)).unwrap();
    let (msg_type, msg_code, quote) = parse_icmpv4_reply(&frame, our_v4(), remote_v4());
    assert_eq!(msg_type, control4::DST_UNREACHABLE);
    assert_eq!(msg_code, control4::PORT_UNREACHABLE);
    assert_eq!(quote, packet);

    // A socket bound to the port is handed the datagram.
    match upper(&stack, handle(0), packet) {
        Some(UpperIngress::Udp(delivered)) => {
            assert_eq!(udp::dst_port(&delivered), 7);
            assert_eq!(udp::payload_of(&delivered), b"echo?");
        }
        _ => panic!("the datagram did not reach UDP"),
    }
}

#[test]
fn test_icmpv4_port_unreachable_suppressed_by_raw_socket() {
    let stack = test_stack(Medium::Ip);
    let iface = stack.ifaces.get(0);
    let datagram = udp_datagram(remote_v4().into(), 4000, our_v4().into(), 7, b"echo?");
    let packet = ipv4_packet(remote_v4(), our_v4(), UDP, &datagram);
    // A raw socket is offered the whole packet, and gets a copy of it.
    match iface.process_ipv4(no_dhcp(), None, packet.clone()) {
        Ipv4Ingress::Accept(accepted) => {
            assert!(accepted.stack_wants);
            assert_eq!(accepted.packet, packet);
        }
        _ => panic!("the packet was not accepted"),
    }
    // An application handling UDP through a raw socket suppresses the error.
    assert!(iface.port_unreachable_v4(packet, true).is_none());
}

#[test]
fn test_icmpv6_port_unreachable() {
    let stack = test_stack(Medium::Ip);
    let datagram = udp_datagram(remote_v6().into(), 4000, our_v6().into(), 7, b"echo?");
    let packet = ipv6_packet(remote_v6(), our_v6(), UDP, &datagram);
    let reply = port_unreachable_v6(packet.clone(), false, our_v6());
    let frame = reply_packet(&stack, reply).unwrap();
    let (msg_type, msg_code, _, quote) = parse_icmpv6_reply(&frame, our_v6(), remote_v6());
    assert_eq!(msg_type, control6::DST_UNREACHABLE);
    assert_eq!(msg_code, control6::PORT_UNREACHABLE);
    assert_eq!(quote, packet);
    assert!(port_unreachable_v6(packet, true, our_v6()).is_none());
}

#[test]
fn any_ipv4_next_hop_is_asked_for() {
    let stack = test_stack(Medium::Ethernet);
    let target = Ipv4Address::unspecified();
    match stack.ifaces.get(0).solicit_neighbor(target.into(), Some(our_v4()), our_v6()) {
        Solicitation::Frame(frame) => {
            let message = arp::Message::parse(&frame[14..]).unwrap();
            assert_eq!(message.operation, arp::OPERATION_REQUEST);
            assert_eq!(message.target_protocol_addr, target);
        }
        _ => panic!("no ARP request"),
    }
}

use xarxa::driver::Medium;
use xarxa::options::{
    lladdr_option_len, ndisc_lladdr_option, process_hop_by_hop, write_lladdr_option,
    HopByHopAction, SOURCE_LINK_LAYER_ADDR, TARGET_LINK_LAYER_ADDR,
};
use xarxa::storage::Slab;
use xarxa::wire::ip::{ICMP, ICMPV6, TCP, UDP};
use xarxa::wire::{
    arp, checksum, cidr_separator, control4, control6, ipv4, ipv6, take, tcp, udp, Error,
    EthernetAddress, HardwareAddress, Ieee802154Address, IpAddress, IpCidr, IpProtocol, IpVersion,
    Ipv4Address, Ipv4Cidr, Ipv4Packet, Ipv6Address, Ipv6Cidr, Ipv6Packet, ParseError, TcpControl,
    TcpOption, TcpPacket, TcpSeqNumber, LINK_HEADER_LEN,
};

#[test]
fn sequence_numbers_wrap() {
    let last = TcpSeqNumber(i32::MAX);
    assert_eq!(last + 1, TcpSeqNumber(i32::MIN));
    assert_eq!(TcpSeqNumber(i32::MIN) - 1, last);
    assert_eq!((last + 10) - last, 10);
    let mut number = TcpSeqNumber(-1);
    number += 2;
    assert_eq!(number, TcpSeqNumber(1));
}

#[test]
fn sequence_numbers_are_ordered_by_distance() {
    let early = TcpSeqNumber(i32::MAX - 1);
    let late = early + 5;
    assert!(early < late);
    assert!(late > early);
    assert_eq!(early.max(late), late);
    assert_eq!(early.min(late), early);
    assert!(early <= early);
}

#[test]
fn control_flags() {
    assert_eq!(TcpControl::Syn.len(), 1);
    assert_eq!(TcpControl::Fin.len(), 1);
    assert_eq!(TcpControl::Plain.len(), 0);
    assert_eq!(TcpControl::Rst.len(), 0);
    assert_eq!(TcpControl::Psh.quash_psh(), TcpControl::Plain);
    assert_eq!(TcpControl::Fin.quash_psh(), TcpControl::Fin);
}

#[test]
fn tcp_flags_are_independent() {
    let mut bytes = vec![0xff; 20];
    let mut packet = TcpPacket::new_unchecked(&mut bytes);
    packet.set_header_len(20);
    packet.clear_flags();
    assert_eq!(packet.header_len(), 20);
    packet.set_ns(true);
    packet.set_ece(true);
    assert!(packet.ns() && packet.ece());
    assert!(!packet.cwr() && !packet.syn() && !packet.fin() && !packet.urg());
    packet.set_ns(false);
    packet.set_cwr(true);
    assert!(!packet.ns() && packet.ece() && packet.cwr());
    assert_eq!(packet.header_len(), 20);
    assert_eq!(tcp::OPTIONS(24), 20..24);
}

#[test]
fn tcp_options_are_padded_and_skipped() {
    // What follows an option is handed back.
    let (rest, option) = TcpOption::parse(&[0x03, 0x03, 0x07, 0x01]).unwrap();
    assert_eq!(option, TcpOption::WindowScale(7));
    assert_eq!(rest, &[0x01]);
    // A length that runs past the end, and a length that a kind does not have.
    assert_eq!(TcpOption::parse(&[0x02, 0x05, 0, 0, 0]), Err(Error));
    assert_eq!(TcpOption::parse(&[0x04, 0x03, 0]), Err(Error));
    assert_eq!(TcpOption::parse(&[0x05, 0x02]), Err(Error));
    let mut storage = [0xff; 6];
    let rest = TcpOption::MaxSegmentSize(0x1234).emit(&mut storage);
    assert_eq!(rest.len(), 2);
    assert_eq!(storage, [0x02, 0x04, 0x12, 0x34, 0xff, 0xff]);
}

#[test]
fn checksums_of_known_octets() {
    // RFC 1071 §3.
    let octets = [0x00, 0x01, 0xf2, 0x03, 0xf4, 0xf5, 0xf6, 0xf7];
    assert_eq!(checksum::data(&octets), 0xddf2);
    assert_eq!(checksum::data(&[]), 0);
    // An odd octet is the high half of a word.
    assert_eq!(checksum::data(&[0x12]), 0x1200);
    assert_eq!(checksum::combine(&[0xffff, 0x0001]), 0x0001);
    assert_eq!(checksum::combine(&[0x1200, 0x0034]), 0x1234);
    let src: IpAddress = Ipv4Address::new(10, 0, 0, 1).into();
    let dst: IpAddress = Ipv4Address::new(10, 0, 0, 2).into();
    assert_eq!(checksum::pseudo_header(&src, &dst, IpProtocol(UDP), 8), 0x1400 + 3 + 17 + 8);
}

#[test]
fn ipv4_setters_keep_other_fields() {
    let mut bytes = [0u8; 20];
    let mut packet = Ipv4Packet::new_unchecked(&mut bytes);
    packet.set_version(4);
    packet.set_header_len(20);
    packet.set_dscp(0x2a);
    packet.set_ecn(3);
    assert_eq!((packet.version(), packet.header_len()), (4, 20));
    assert_eq!((packet.dscp(), packet.ecn()), (0x2a, 3));
    packet.set_dscp(1);
    assert_eq!((packet.dscp(), packet.ecn()), (1, 3));
    packet.set_frag_offset(0x1ff8);
    packet.set_dont_frag(true);
    assert_eq!(packet.frag_offset(), 0x1ff8);
    packet.set_more_frags(true);
    packet.set_dont_frag(false);
    assert!(packet.more_frags() && !packet.dont_frag());
    assert_eq!(packet.frag_offset(), 0x1ff8);
    packet.clear_flags();
    assert!(!packet.more_frags());
    assert_eq!(packet.frag_offset(), 0x1ff8);
    packet.set_checksum(0xabcd);
    assert_eq!(packet.checksum(), 0xabcd);
}

#[test]
fn ipv6_lengths() {
    let mut bytes = vec![0u8; 44];
    let mut packet = Ipv6Packet::new_unchecked(&mut bytes);
    packet.set_payload_len(4);
    assert_eq!(packet.check_len(), Ok(()));
    assert_eq!(packet.header_len(), 40);
    assert_eq!(packet.total_len(), 44);
    packet.set_payload_len(5);
    assert_eq!(packet.check_len(), Err(Error));
    assert!(Ipv6Packet::new_checked(&mut bytes[..39]).is_err());
}

#[test]
fn netmasks_and_prefixes() {
    assert_eq!(Ipv4Address::new(255, 255, 255, 0).prefix_len(), Some(24));
    assert_eq!(Ipv4Address::new(0, 0, 0, 0).prefix_len(), Some(0));
    assert_eq!(Ipv4Address::new(255, 255, 255, 255).prefix_len(), Some(32));
    assert_eq!(Ipv4Address::new(255, 0, 255, 0).prefix_len(), None);
    assert_eq!(Ipv4Address::new(0, 255, 0, 0).prefix_len(), None);
    assert_eq!(Ipv6Address::new(0xffff, 0xff00, 0, 0, 0, 0, 0, 0).prefix_len(), Some(24));
    assert_eq!(Ipv6Address::new(0xffff, 0, 1, 0, 0, 0, 0, 0).prefix_len(), None);
    assert!(Ipv4Cidr::try_new(Ipv4Address::new(10, 0, 0, 1), 33).is_none());
    assert!(Ipv6Cidr::try_new(Ipv6Address::localhost(), 129).is_none());
    assert_eq!(Ipv6Cidr::try_new(Ipv6Address::localhost(), 128).unwrap().prefix_len(), 128);
}

#[test]
fn cidr_laws_on_an_example() {
    let cidr = Ipv4Cidr::new(Ipv4Address::new(192, 168, 37, 9), 20);
    let network = cidr.network();
    assert!(cidr.contains_addr(&cidr.address()));
    assert_eq!(network.address(), Ipv4Address::new(192, 168, 32, 0));
    assert!(network.contains_subnet(&cidr) && cidr.contains_subnet(&network));
    assert!(cidr.contains_addr(&cidr.broadcast().unwrap()));
    assert_eq!(cidr.broadcast().unwrap(), Ipv4Address::new(192, 168, 47, 255));
    assert_eq!(cidr.netmask().prefix_len(), Some(20));
    assert_eq!(Ipv4Cidr::from_netmask(cidr.address(), cidr.netmask()), Ok(cidr));
    let wide = Ipv4Cidr::new(Ipv4Address::new(192, 168, 0, 0), 16);
    assert!(wide.contains_subnet(&cidr) && !cidr.contains_subnet(&wide));
    // The broadcast address is the last one of the block.
    assert!(!cidr.contains_addr(&Ipv4Address::new(192, 168, 48, 0)));
    // The next block shares no address with it.
    let next = Ipv4Cidr::new(Ipv4Address::new(192, 168, 48, 0), 20);
    assert!(!cidr.contains_subnet(&next) && !next.contains_subnet(&cidr));
    let any: IpCidr = IpCidr::new(Ipv4Address::new(192, 168, 37, 9).into(), 20);
    assert!(any.contains_addr(&Ipv4Address::new(192, 168, 40, 1).into()));
    assert!(!any.contains_addr(&Ipv6Address::localhost().into()));
}

#[test]
fn cidr_texts() {
    assert_eq!(cidr_separator(b"10.0.0.1/8"), Ok(8));
    assert_eq!(cidr_separator(b"/8/"), Ok(0));
    assert_eq!(cidr_separator(b"10.0.0.1"), Err(ParseError::MissingSeparator('/')));
    let v4 = Ipv4Address::new(10, 0, 0, 1);
    assert_eq!(Ipv4Cidr::from_parts(Some(v4), Some(8)), Ok(Ipv4Cidr::new(v4, 8)));
    assert_eq!(Ipv4Cidr::from_parts(None, None), Err(ParseError::Addr));
    assert_eq!(Ipv4Cidr::from_parts(Some(v4), None), Err(ParseError::PrefixLen));
    assert_eq!(Ipv4Cidr::from_parts(Some(v4), Some(33)), Err(ParseError::PrefixLenTooLarge));
    let v6 = Ipv6Address::localhost();
    assert_eq!(Ipv6Cidr::from_parts(Some(v6), Some(64)), Ok(Ipv6Cidr::new(v6, 64)));
    assert_eq!(Ipv6Cidr::from_parts(None, Some(64)), Err(ParseError::Addr));
    assert_eq!(Ipv6Cidr::from_parts(Some(v6), None), Err(ParseError::PrefixLen));
    assert_eq!(Ipv6Cidr::from_parts(Some(v6), Some(129)), Err(ParseError::PrefixLenTooLarge));
}

#[test]
fn take_advances() {
    let buf = [1, 2, 3, 4, 5];
    let mut offset = 0;
    assert_eq!(take(&buf, &mut offset, 2), Ok(&[1, 2][..]));
    assert_eq!(offset, 2);
    assert_eq!(take(&buf, &mut offset, 4), Err(Error));
    assert_eq!(offset, 2);
    assert_eq!(take(&buf, &mut offset, 3), Ok(&[3, 4, 5][..]));
    assert_eq!(take(&buf, &mut offset, 0), Ok(&[][..]));
    assert_eq!(LINK_HEADER_LEN, 14);
}

#[test]
fn addresses_map_to_groups() {
    let addr = Ipv6Address::new(0xfdaa, 0, 0, 0, 0, 0, 0x12, 0x3456);
    let group = addr.solicited_node();
    assert_eq!(group, Ipv6Address::new(0xff02, 0, 0, 0, 0, 1, 0xff12, 0x3456));
    assert!(group.is_solicited_node_multicast());
    assert!(Ipv6Cidr::solicited_node_prefix().contains_addr(&group));
    assert_eq!(
        group.multicast_ethernet_addr(),
        EthernetAddress([0x33, 0x33, 0xff, 0x12, 0x34, 0x56])
    );
    // The top bits of a group are dropped.
    assert_eq!(
        Ipv4Address::new(239, 129, 2, 3).multicast_ethernet_addr(),
        EthernetAddress([0x01, 0x00, 0x5e, 0x01, 0x02, 0x03])
    );
    assert_eq!(ipv4::multicast_all_systems(), Ipv4Address::new(224, 0, 0, 1));
    assert_eq!(ipv4::multicast_all_routers(), Ipv4Address::new(224, 0, 0, 2));
    assert_eq!(
        ipv6::link_local_all_mldv2_routers(),
        Ipv6Address::new(0xff02, 0, 0, 0, 0, 0, 0, 0x16)
    );
    assert!(Ipv6Cidr::link_local_prefix().contains_addr(&Ipv6Address::new(
        0xfe80, 0, 0, 0, 0, 0, 0, 9
    )));
}

#[test]
fn versions_of_packets() {
    assert_eq!(IpVersion::of_packet(&[0x45, 0]), Ok(IpVersion::Ipv4));
    assert_eq!(IpVersion::of_packet(&[0x60]), Ok(IpVersion::Ipv6));
    assert_eq!(IpVersion::of_packet(&[0x20]), Err(Error));
    assert_eq!(IpVersion::of_packet(&[]), Err(Error));
    let v4: IpAddress = Ipv4Address::new(224, 0, 0, 9).into();
    assert!(v4.is_multicast() && !v4.is_unicast());
    assert_eq!(v4.version(), IpVersion::Ipv4);
    assert_eq!(IpProtocol::from(6), IpProtocol(TCP));
}

#[test]
fn arp_messages_come_back() {
    let message = arp::Message {
        operation: arp::OPERATION_REPLY,
        source_hardware_addr: EthernetAddress([2, 0, 0, 0, 0, 1]),
        source_protocol_addr: Ipv4Address::new(192, 168, 1, 1),
        target_hardware_addr: EthernetAddress([2, 0, 0, 0, 0, 2]),
        target_protocol_addr: Ipv4Address::new(192, 168, 1, 2),
    };
    let parsed = arp::Message::parse(&message.emit()).unwrap();
    assert_eq!(parsed.operation, 2);
    assert_eq!(parsed.source_hardware_addr, message.source_hardware_addr);
    assert_eq!(parsed.source_protocol_addr, message.source_protocol_addr);
    assert_eq!(parsed.target_hardware_addr, message.target_hardware_addr);
    assert_eq!(parsed.target_protocol_addr, message.target_protocol_addr);
    assert!(arp::Message::parse(&message.emit()[..27]).is_none());
}

#[test]
fn link_layer_address_options() {
    let ethernet = HardwareAddress::Ethernet(EthernetAddress([2, 0, 0, 0, 0, 7]));
    assert_eq!(lladdr_option_len(ethernet), 8);
    let mut option = [0xff; 8];
    write_lladdr_option(&mut option, SOURCE_LINK_LAYER_ADDR, ethernet);
    assert_eq!(option, [1, 1, 2, 0, 0, 0, 0, 7]);
    let found = ndisc_lladdr_option(&option, SOURCE_LINK_LAYER_ADDR).unwrap().unwrap();
    assert_eq!(found.parse(Medium::Ethernet), Ok(ethernet));
    assert_eq!(ndisc_lladdr_option(&option, TARGET_LINK_LAYER_ADDR), Ok(None));

    let extended = HardwareAddress::Ieee802154(Ieee802154Address::Extended([1; 8]));
    assert_eq!(lladdr_option_len(extended), 16);
    let mut option = [0xff; 16];
    write_lladdr_option(&mut option, TARGET_LINK_LAYER_ADDR, extended);
    assert_eq!(option, [2, 2, 1, 1, 1, 1, 1, 1, 1, 1, 0, 0, 0, 0, 0, 0]);
    let found = ndisc_lladdr_option(&option, TARGET_LINK_LAYER_ADDR).unwrap().unwrap();
    assert_eq!(found.parse(Medium::Ieee802154), Ok(extended));

    // A length of zero, and an option that is cut short.
    assert_eq!(ndisc_lladdr_option(&[1, 0, 0, 0, 0, 0, 0, 0], 1), Err(Error));
    assert_eq!(ndisc_lladdr_option(&[1, 2, 0, 0, 0, 0, 0, 0], 1), Err(Error));
    assert_eq!(ndisc_lladdr_option(&[1, 1, 0], 1), Err(Error));
    assert_eq!(ndisc_lladdr_option(&[], 1), Ok(None));
}

#[test]
fn hop_by_hop_options() {
    // Padding and a router alert.
    let header = [17, 0, 0x05, 0x02, 0, 0, 0x01, 0x00];
    assert_eq!(
        process_hop_by_hop(&header),
        Ok(HopByHopAction::Continue { next_header: IpProtocol(UDP), ext_len: 8 })
    );
    // An option runs past the end; the header is cut short.
    assert_eq!(process_hop_by_hop(&[17, 0, 0x05, 0x07, 0, 0, 0, 0]), Err(Error));
    assert_eq!(process_hop_by_hop(&[17, 1, 0, 0, 0, 0, 0, 0]), Err(Error));
    assert_eq!(process_hop_by_hop(&[17, 0, 0]), Err(Error));
    // What to do about an option that is not recognized is in the two high bits of its type.
    let with_type = |option_type: u8| process_hop_by_hop(&[17, 0, 0, option_type, 0x03, 0, 0, 0]);
    assert!(matches!(with_type(0x3e), Ok(HopByHopAction::Continue { .. })));
    assert_eq!(with_type(0x7e), Ok(HopByHopAction::Discard));
    assert_eq!(
        with_type(0xbe),
        Ok(HopByHopAction::DiscardSendError { pointer: 43, allow_multicast_dst: true })
    );
    assert_eq!(
        with_type(0xfe),
        Ok(HopByHopAction::DiscardSendError { pointer: 43, allow_multicast_dst: false })
    );
}

#[test]
fn datagrams() {
    let datagram = [0x12, 0x34, 0x00, 0x35, 0, 10, 0, 0, b'h', b'i', 0xff];
    assert!(udp::check_len(&datagram));
    assert_eq!(udp::src_port(&datagram), 0x1234);
    assert_eq!(udp::dst_port(&datagram), 53);
    assert_eq!(udp::payload_of(&datagram), b"hi");
    assert!(!udp::check_len(&datagram[..9]));
    assert!(!udp::check_len(&[0, 0, 0, 0, 0, 7, 0, 0]));
    // A checksum of zero was not computed by the sender.
    let addr: IpAddress = Ipv4Address::new(10, 0, 0, 1).into();
    assert!(udp::verify_checksum(&datagram, &addr, &addr));
    let mut wrong = datagram;
    wrong[7] = 1;
    assert!(!udp::verify_checksum(&wrong, &addr, &addr));
}

#[test]
fn control_messages() {
    let mut message = vec![8, 0, 0, 0, 0x12, 0x34, 0, 1];
    control4::fill_checksum(&mut message, false);
    assert_eq!(message[2..4], [0xe5, 0xca]);
    assert!(control4::verify_checksum(&message));
    control4::fill_checksum(&mut message, true);
    assert_eq!(message[2..4], [0, 0]);
    assert!(!control4::verify_checksum(&message));
    for (msg_type, error) in [(0, false), (3, true), (4, true), (5, true), (8, false), (11, true)] {
        assert_eq!(control4::is_error(msg_type), error);
    }
    assert!(control6::is_error(1) && control6::is_error(127) && !control6::is_error(128));
    assert_ne!(ICMP, ICMPV6);
}

#[test]
fn slab_slots() {
    let mut slab = Slab::new();
    assert_eq!(slab.add('a'), Ok(0));
    assert_eq!(slab.add('b'), Ok(1));
    assert_eq!(slab.remove(0), 'a');
    assert!(!slab.contains(0) && slab.contains(1));
    assert_eq!(slab.vacant(), 0);
    assert_eq!(slab.next_occupied(0), Some(1));
    assert_eq!(slab.next_occupied(2), None);
    *slab.get_mut(1) = 'c';
    assert_eq!(*slab.get(1), 'c');
    assert_eq!(slab.add('d'), Ok(0));
    assert_eq!(slab.indices(), vec![0, 1]);
    assert_eq!(slab.slot_count(), 2);
}

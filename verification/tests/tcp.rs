use xarxa::wire::ip::Address as IpAddress;
use xarxa::wire::ipv4;
use xarxa::wire::tcp::{Packet, SeqNumber, TcpOption};
use xarxa::wire::Error;

fn src_addr() -> IpAddress {
    ipv4::Address::new(192, 168, 1, 1).into()
}

fn dst_addr() -> IpAddress {
    ipv4::Address::new(192, 168, 1, 2).into()
}

const PACKET_BYTES: [u8; 28] = [
    0xbf, 0x00, 0x00, 0x50, 0x01, 0x23, 0x45, 0x67, 0x89, 0xab, 0xcd, 0xef, 0x60, 0x35, 0x01, 0x23, 0x01, 0xb6,
    0x02, 0x01, 0x03, 0x03, 0x0c, 0x01, 0xaa, 0x00, 0x00, 0xff,
];

const OPTION_BYTES: [u8; 4] = [0x03, 0x03, 0x0c, 0x01];

const PAYLOAD_BYTES: [u8; 4] = [0xaa, 0x00, 0x00, 0xff];

#[test]
fn tcp_test_deconstruct() {
    let mut bytes = PACKET_BYTES;
    let packet = Packet::new_unchecked(&mut bytes[..]);
    assert_eq!(packet.src_port(), 48896);
    assert_eq!(packet.dst_port(), 80);
    assert_eq!(packet.seq_number(), SeqNumber(0x01234567));
    assert_eq!(packet.ack_number(), SeqNumber(0x89abcdefu32 as i32));
    assert_eq!(packet.header_len(), 24);
    assert!(packet.fin());
    assert!(!packet.syn());
    assert!(packet.rst());
    assert!(!packet.psh());
    assert!(packet.ack());
    assert!(packet.urg());
    assert_eq!(packet.window_len(), 0x0123);
    assert_eq!(packet.urgent_at(), 0x0201);
    assert_eq!(packet.checksum(), 0x01b6);
    assert_eq!(packet.options(), &OPTION_BYTES[..]);
    assert_eq!(packet.payload(), &PAYLOAD_BYTES[..]);
    assert!(packet.verify_checksum(&src_addr(), &dst_addr()));
}

#[test]
fn tcp_test_construct() {
    let mut bytes = vec![0xa5; PACKET_BYTES.len()];
    let mut packet = Packet::new_unchecked(&mut bytes);
    packet.set_src_port(48896);
    packet.set_dst_port(80);
    packet.set_seq_number(SeqNumber(0x01234567));
    packet.set_ack_number(SeqNumber(0x89abcdefu32 as i32));
    packet.set_header_len(24);
    packet.clear_flags();
    packet.set_fin(true);
    packet.set_syn(false);
    packet.set_rst(true);
    packet.set_psh(false);
    packet.set_ack(true);
    packet.set_urg(true);
    packet.set_window_len(0x0123);
    packet.set_urgent_at(0x0201);
    packet.set_checksum(0xEEEE);
    packet.options_mut().copy_from_slice(&OPTION_BYTES[..]);
    packet.payload_mut().copy_from_slice(&PAYLOAD_BYTES[..]);
    packet.fill_checksum(&src_addr(), &dst_addr());
    assert_eq!(&bytes[..], &PACKET_BYTES[..]);
}

#[test]
fn test_truncated() {
    let mut bytes = PACKET_BYTES;
    let packet = Packet::new_unchecked(&mut bytes[..23]);
    assert_eq!(packet.check_len(), Err(Error));
}

#[test]
fn test_impossible_len() {
    let mut bytes = vec![0; 20];
    let mut packet = Packet::new_unchecked(&mut bytes);
    packet.set_header_len(10);
    assert_eq!(packet.check_len(), Err(Error));
}

fn assert_option_parses(option: TcpOption<'_>, data: &[u8]) {
    assert_eq!(TcpOption::parse(data), Ok((&[][..], option)));
    let mut storage = [0u8; 40];
    let buffer = &mut storage[..option.buffer_len()];
    assert_eq!(option.emit(buffer), &mut [] as &mut [u8]);
    assert_eq!(&*buffer, data);
}

#[test]
fn test_tcp_options() {
    assert_option_parses(TcpOption::EndOfList, &[0x00]);
    assert_option_parses(TcpOption::NoOperation, &[0x01]);
    assert_option_parses(TcpOption::MaxSegmentSize(1500), &[0x02, 0x04, 0x05, 0xdc]);
    assert_option_parses(TcpOption::WindowScale(12), &[0x03, 0x03, 0x0c]);
    assert_option_parses(TcpOption::SackPermitted, &[0x4, 0x02]);
    assert_option_parses(
        TcpOption::SackRange([Some((500, 1500)), None, None]),
        &[0x05, 0x0a, 0x00, 0x00, 0x01, 0xf4, 0x00, 0x00, 0x05, 0xdc]
    );
    assert_option_parses(
        TcpOption::SackRange([Some((875, 1225)), Some((1500, 2500)), None]),
        &[
            0x05, 0x12, 0x00, 0x00, 0x03, 0x6b, 0x00, 0x00, 0x04, 0xc9, 0x00, 0x00, 0x05, 0xdc, 0x00, 0x00, 0x09,
            0xc4
        ]
    );
    assert_option_parses(
        TcpOption::SackRange([
            Some((875000, 1225000)),
            Some((1500000, 2500000)),
            Some((876543210, 876654320))
        ]),
        &[
            0x05, 0x1a, 0x00, 0x0d, 0x59, 0xf8, 0x00, 0x12, 0xb1, 0x28, 0x00, 0x16, 0xe3, 0x60, 0x00, 0x26, 0x25,
            0xa0, 0x34, 0x3e, 0xfc, 0xea, 0x34, 0x40, 0xae, 0xf0
        ]
    );
    assert_option_parses(
        TcpOption::TimeStamp {
            tsval: 5000000,
            tsecr: 7000000
        },
        &[
            0x08, // data length
            0x0a, // type
            0x00, 0x4c, 0x4b, 0x40, //tsval
            0x00, 0x6a, 0xcf, 0xc0 //tsecr
        ]
    );
    assert_option_parses(
        TcpOption::Unknown {
            kind: 12,
            data: &[1, 2, 3][..]
        },
        &[0x0c, 0x05, 0x01, 0x02, 0x03]
    )
}

#[test]
fn test_malformed_tcp_options() {
    assert_eq!(TcpOption::parse(&[]), Err(Error));
    assert_eq!(TcpOption::parse(&[0xc]), Err(Error));
    assert_eq!(TcpOption::parse(&[0xc, 0x05, 0x01, 0x02]), Err(Error));
    assert_eq!(TcpOption::parse(&[0xc, 0x01]), Err(Error));
    assert_eq!(TcpOption::parse(&[0x2, 0x02]), Err(Error));
    assert_eq!(TcpOption::parse(&[0x3, 0x02]), Err(Error));
}

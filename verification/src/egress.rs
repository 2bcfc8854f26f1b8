//! Building the packets that the stack sends.

use vstd::prelude::*;

use crate::driver::ChecksumCapabilities;
use crate::endian::{
    be128, be16, be32, lemma_be128_octets128, lemma_be32_octets32, octets16, octets32, put16,
};
use crate::wire::checksum::{fold, law_complement, law_word_sum_put16, word_sum};
use crate::wire::ip::Protocol;
use crate::wire::ethernet::{Address as EthernetAddress, EtherType};
use crate::wire::{control4, control6, ipv4, ipv6};

verus! {

/// The header of an IPv4 packet without options that is not a fragment and must not become
/// one, with the checksum field zero.
pub open spec fn ipv4_header(
    src_addr: ipv4::Address,
    dst_addr: ipv4::Address,
    next_header: Protocol,
    hop_limit: u8,
    payload_len: nat,
) -> Seq<u8> {
    seq![0x45u8, 0x00] + octets16((ipv4::HEADER_LEN + payload_len) as int % 0x1_0000) + seq![
        0x00u8,
        0x00,
        0x40,
        0x00,
        hop_limit,
        next_header.0,
        0x00,
        0x00,
    ] + octets32(src_addr.bits as int) + octets32(dst_addr.bits as int)
}

/// An IPv4 packet: the header, with its checksum filled in unless `offload` says that the
/// device does that, and the payload.
pub open spec fn ipv4_packet(
    src_addr: ipv4::Address,
    dst_addr: ipv4::Address,
    next_header: Protocol,
    hop_limit: u8,
    offload: bool,
    payload: Seq<u8>,
) -> Seq<u8> {
    let header = ipv4_header(src_addr, dst_addr, next_header, hop_limit, payload.len());
    if offload {
        header + payload
    } else {
        put16(header, 10, 0xffff - fold(word_sum(header))) + payload
    }
}

/// Write the header of a packet of `total_len` octets, with the checksum field zero.
fn fill_ipv4_header(
    buf: &mut [u8],
    src_addr: ipv4::Address,
    dst_addr: ipv4::Address,
    next_header: Protocol,
    hop_limit: u8,
    total_len: u16,
)
    requires
        old(buf)@.len() == 20,
    ensures
        final(buf)@ == seq![0x45u8, 0x00] + octets16(total_len as int) + seq![
            0x00u8,
            0x00,
            0x40,
            0x00,
            hop_limit,
            next_header.0,
            0x00,
            0x00,
        ] + octets32(src_addr.bits as int) + octets32(dst_addr.bits as int),
{
    let mut packet = ipv4::Packet::new_unchecked(buf);
    packet.set_version(4);
    packet.set_header_len(20);
    packet.set_dscp(0);
    packet.set_ecn(0);
    assert(packet@[0] == 0x45 && packet@[1] == 0x00);
    packet.set_total_len(total_len);
    packet.set_ident(0);
    let ghost front = seq![0x45u8, 0x00] + octets16(total_len as int) + seq![0x00u8, 0x00];
    assert(packet@.take(6) =~= front);
    packet.clear_flags();
    packet.set_more_frags(false);
    packet.set_dont_frag(true);
    packet.set_frag_offset(0);
    assert(packet@[6] == 0x40 && packet@[7] == 0x00);
    assert(packet@.take(6) =~= front);
    packet.set_hop_limit(hop_limit);
    packet.set_next_header(next_header);
    packet.set_src_addr(src_addr);
    packet.set_dst_addr(dst_addr);
    packet.set_checksum(0);
    assert(packet@.take(6) =~= front);
    assert(packet@ =~= front + seq![0x40u8, 0x00, hop_limit, next_header.0, 0x00, 0x00] + octets32(
        src_addr.bits as int,
    ) + octets32(dst_addr.bits as int));
}

/// Prepend an IPv4 header to a fully-built L4 payload.
///
/// The header checksum is only computed if the egress device doesn't do it itself; it is
/// written as zero otherwise, since devices might rely on it.
pub fn push_ipv4_header(
    buf: &mut Vec<u8>,
    src_addr: ipv4::Address,
    dst_addr: ipv4::Address,
    next_header: Protocol,
    hop_limit: u8,
    checksum_caps: &ChecksumCapabilities,
)
    ensures
        final(buf)@ == ipv4_packet(
            src_addr,
            dst_addr,
            next_header,
            hop_limit,
            checksum_caps.ipv4.tx,
            old(buf)@,
        ),
{
    let mut out: Vec<u8> = bare_ipv4_header(
        src_addr,
        dst_addr,
        next_header,
        hop_limit,
        buf.len() as u64,
    );
    if !checksum_caps.ipv4.tx {
        proof {
            lemma_cleared(out@);
        }
        let mut packet = ipv4::Packet::new_unchecked(out.as_mut_slice());
        packet.fill_checksum();
    }
    out.append(buf);
    *buf = out;
}

/// The header of a packet with a payload of `payload_len` octets, with the checksum field zero.
fn bare_ipv4_header(
    src_addr: ipv4::Address,
    dst_addr: ipv4::Address,
    next_header: Protocol,
    hop_limit: u8,
    payload_len: u64,
) -> (header: Vec<u8>)
    ensures
        header@ == ipv4_header(src_addr, dst_addr, next_header, hop_limit, payload_len as nat),
        header@.len() == 20,
        header@[0] == 0x45,
        header@[10] == 0,
        header@[11] == 0,
{
    let total_len: u16 = ((payload_len % 0x1_0000 + 20) % 0x1_0000) as u16;
    let mut header: Vec<u8> = vec![0u8; 20];
    fill_ipv4_header(header.as_mut_slice(), src_addr, dst_addr, next_header, hop_limit, total_len);
    assert(total_len as int == (ipv4::HEADER_LEN + payload_len) % 0x1_0000);
    header
}

/// Clearing the checksum field of a header in which it is zero changes nothing.
proof fn lemma_cleared(header: Seq<u8>)
    requires
        header.len() == 20,
        header[10] == 0,
        header[11] == 0,
    ensures
        put16(header, 10, 0) == header,
        header.take(20) == header,
{
    assert(put16(header, 10, 0) =~= header);
    assert(header.take(20) =~= header);
}

/// The header of an IPv6 packet.
#[verifier::opaque]
pub open spec fn ipv6_header(
    src_addr: ipv6::Address,
    dst_addr: ipv6::Address,
    next_header: Protocol,
    hop_limit: u8,
    payload_len: nat,
) -> Seq<u8> {
    seq![0x60u8, 0x00, 0x00, 0x00] + octets16(payload_len as int % 0x1_0000) + seq![
        next_header.0,
        hop_limit,
    ] + ipv6::address_octets(src_addr.bits) + ipv6::address_octets(dst_addr.bits)
}

/// Prepend an IPv6 header to a fully-built L4 payload.
pub fn push_ipv6_header(
    buf: &mut Vec<u8>,
    src_addr: ipv6::Address,
    dst_addr: ipv6::Address,
    next_header: Protocol,
    hop_limit: u8,
)
    ensures
        final(buf)@ == ipv6_header(src_addr, dst_addr, next_header, hop_limit, old(buf)@.len())
            + old(buf)@,
{
    let payload_len: u16 = (buf.len() as u64 % 0x1_0000) as u16;
    let mut out: Vec<u8> = vec![0u8; 40];
    {
        let mut packet = ipv6::Packet::new_unchecked(out.as_mut_slice());
        packet.set_version(6);
        packet.set_traffic_class(0);
        packet.set_flow_label(0);
        packet.set_payload_len(payload_len);
        packet.set_next_header(next_header);
        packet.set_hop_limit(hop_limit);
        packet.set_src_addr(src_addr);
        packet.set_dst_addr(dst_addr);
        proof {
            reveal(ipv6_header);
            ipv6::lemma_octets_len(src_addr);
            ipv6::lemma_octets_len(dst_addr);
        }
        assert(packet@ =~= ipv6_header(src_addr, dst_addr, next_header, hop_limit, buf@.len()));
    }
    out.append(buf);
    *buf = out;
}

/// ICMP error messages have a fixed 8-byte header (type, code, checksum, and a 4-byte
/// type-specific field), followed by the quoted packet.
pub const ICMP_ERROR_HEADER_LEN: usize = 8;

/// The longest quote of an ICMPv4 error: the error fits the minimum MTU (RFC 1812 §4.3.2.3).
pub const ICMPV4_QUOTE_LEN: usize = 548;

/// The longest quote of an ICMPv6 error: the error fits the minimum MTU (RFC 4443 §2.4).
pub const ICMPV6_QUOTE_LEN: usize = 1232;

/// As much of the beginning of `orig` as a quote of at most `most` octets holds.
pub open spec fn quote(orig: Seq<u8>, most: int) -> Seq<u8> {
    if orig.len() <= most {
        orig
    } else {
        orig.take(most)
    }
}

/// An ICMPv4 error message about the packet `orig`.
pub open spec fn error4(
    orig: Seq<u8>,
    msg_type: u8,
    msg_code: u8,
    offload: bool,
) -> Seq<u8> {
    control4::with_checksum(
        seq![msg_type, msg_code, 0, 0, 0, 0, 0, 0] + quote(orig, ICMPV4_QUOTE_LEN as int),
        offload,
    )
}

/// A message of the eight given octets and as much of `orig` as fits in `most` octets.
fn quoting(header: [u8; 8], orig: &[u8], most: usize) -> (message: Vec<u8>)
    ensures
        message@ == header@ + quote(orig@, most as int),
{
    let len: usize = orig.len();
    let quote_len: usize = if len <= most {
        len
    } else {
        most
    };
    let mut message: Vec<u8> = Vec::new();
    message.extend_from_slice(&header);
    message.extend_from_slice(&orig[0..quote_len]);
    assert(message@ =~= header@ + quote(orig@, most as int));
    message
}

/// Build an ICMPv4 error message, quoting as much of `orig` (a whole IP packet) as fits within
/// the minimum MTU (RFC 1812 §4.3.2.3).
pub fn build_icmpv4_error(
    orig: &[u8],
    msg_type: u8,
    msg_code: u8,
    checksum_caps: &ChecksumCapabilities,
) -> (message: Vec<u8>)
    ensures
        message@ == error4(orig@, msg_type, msg_code, checksum_caps.icmpv4.tx),
{
    let header: [u8; 8] = [msg_type, msg_code, 0, 0, 0, 0, 0, 0];
    assert(header@ =~= seq![msg_type, msg_code, 0, 0, 0, 0, 0, 0]);
    let mut message: Vec<u8> = quoting(header, orig, ICMPV4_QUOTE_LEN);
    control4::fill_checksum(message.as_mut_slice(), checksum_caps.icmpv4.tx);
    message
}

/// An ICMPv6 error message about the packet `orig`, sent from `src_addr` to `dst_addr`. The
/// pointer is part of parameter problem messages only.
pub open spec fn error6(
    orig: Seq<u8>,
    src_addr: ipv6::Address,
    dst_addr: ipv6::Address,
    msg_type: u8,
    msg_code: u8,
    pointer: u32,
    offload: bool,
) -> Seq<u8> {
    let field = if msg_type == control6::PARAM_PROBLEM {
        octets32(pointer as int)
    } else {
        octets32(0)
    };
    control6::with_checksum(
        seq![msg_type, msg_code, 0, 0] + field + quote(orig, ICMPV6_QUOTE_LEN as int),
        src_addr,
        dst_addr,
        offload,
    )
}

/// The eight octets that an ICMPv6 error message starts with, before the checksum is filled in.
fn header6(msg_type: u8, msg_code: u8, pointer: u32) -> (header: [u8; 8])
    ensures
        header@ == seq![msg_type, msg_code, 0, 0] + if msg_type == control6::PARAM_PROBLEM {
            octets32(pointer as int)
        } else {
            octets32(0)
        },
{
    let field: u32 = if msg_type == control6::PARAM_PROBLEM {
        pointer
    } else {
        0
    };
    let header: [u8; 8] = [
        msg_type,
        msg_code,
        0,
        0,
        (field / 0x100_0000) as u8,
        (field / 0x1_0000 % 0x100) as u8,
        (field / 0x100 % 0x100) as u8,
        (field % 0x100) as u8,
    ];
    assert(header@ =~= seq![msg_type, msg_code, 0, 0] + octets32(field as int));
    header
}

/// Build an ICMPv6 error message, quoting as much of `orig` (a whole IP packet) as fits within
/// the minimum MTU (RFC 4443 §2.4). `src_addr` and `dst_addr` are the addresses the error will
/// be sent between, for the checksum. `pointer` is written for parameter problem messages.
pub fn build_icmpv6_error(
    orig: &[u8],
    src_addr: &ipv6::Address,
    dst_addr: &ipv6::Address,
    msg_type: u8,
    msg_code: u8,
    pointer: u32,
    checksum_caps: &ChecksumCapabilities,
) -> (message: Vec<u8>)
    ensures
        message@ == error6(
            orig@,
            *src_addr,
            *dst_addr,
            msg_type,
            msg_code,
            pointer,
            checksum_caps.icmpv6.tx,
        ),
{
    let header: [u8; 8] = header6(msg_type, msg_code, pointer);
    let mut message: Vec<u8> = quoting(header, orig, ICMPV6_QUOTE_LEN);
    control6::fill_checksum(message.as_mut_slice(), src_addr, dst_addr, checksum_caps.icmpv6.tx);
    message
}

/// An ICMP error fits the smallest MTU that a link of its IP version may have, and it quotes
/// the beginning of the packet that it is about.
pub proof fn law_error_fits(
    orig: Seq<u8>,
    src_addr: ipv6::Address,
    dst_addr: ipv6::Address,
    msg_type: u8,
    msg_code: u8,
    pointer: u32,
    offload: bool,
)
    ensures
        ipv4::HEADER_LEN + error4(orig, msg_type, msg_code, offload).len() <= ipv4::MIN_MTU,
        error4(orig, msg_type, msg_code, offload).skip(8) == quote(
            orig,
            ICMPV4_QUOTE_LEN as int,
        ),
        ipv6::HEADER_LEN + error6(
            orig,
            src_addr,
            dst_addr,
            msg_type,
            msg_code,
            pointer,
            offload,
        ).len() <= ipv6::MIN_MTU,
        error6(orig, src_addr, dst_addr, msg_type, msg_code, pointer, offload).skip(8)
            == quote(orig, ICMPV6_QUOTE_LEN as int),
{
    assert(error4(orig, msg_type, msg_code, offload).skip(8) =~= quote(
        orig,
        ICMPV4_QUOTE_LEN as int,
    ));
    assert(error6(orig, src_addr, dst_addr, msg_type, msg_code, pointer, offload).skip(8)
        =~= quote(orig, ICMPV6_QUOTE_LEN as int));
}

/// Turn an echo request into the reply to it: the message type changes, and the identifier,
/// sequence number and payload stay.
pub fn echo_reply4(request: Vec<u8>, checksum_caps: &ChecksumCapabilities) -> (reply: Vec<u8>)
    requires
        request@.len() >= 4,
    ensures
        reply@ == control4::with_checksum(
            request@.update(0, control4::ECHO_REPLY),
            checksum_caps.icmpv4.tx,
        ),
{
    let mut reply: Vec<u8> = request;
    reply[0] = control4::ECHO_REPLY;
    control4::fill_checksum(reply.as_mut_slice(), checksum_caps.icmpv4.tx);
    reply
}

/// Turn an ICMPv6 echo request into the reply to it: the message type changes, and the
/// identifier, sequence number and payload stay.
pub fn echo_reply6(
    request: Vec<u8>,
    src_addr: &ipv6::Address,
    dst_addr: &ipv6::Address,
    checksum_caps: &ChecksumCapabilities,
) -> (reply: Vec<u8>)
    requires
        request@.len() >= 4,
    ensures
        reply@ == control6::with_checksum(
            request@.update(0, control6::ECHO_REPLY),
            *src_addr,
            *dst_addr,
            checksum_caps.icmpv6.tx,
        ),
{
    let mut reply: Vec<u8> = request;
    reply[0] = control6::ECHO_REPLY;
    control6::fill_checksum(reply.as_mut_slice(), src_addr, dst_addr, checksum_caps.icmpv6.tx);
    reply
}

/// An Ethernet frame.
pub open spec fn ethernet_frame(
    dst_addr: Seq<u8>,
    src_addr: Seq<u8>,
    ethertype: EtherType,
    payload: Seq<u8>,
) -> Seq<u8> {
    dst_addr + src_addr + octets16(ethertype.0 as int) + payload
}

/// Prepend an Ethernet header to a packet.
pub fn push_ethernet_header(
    buf: &mut Vec<u8>,
    dst_addr: EthernetAddress,
    src_addr: EthernetAddress,
    ethertype: EtherType,
)
    ensures
        final(buf)@ == ethernet_frame(dst_addr@, src_addr@, ethertype, old(buf)@),
{
    let mut out: Vec<u8> = Vec::new();
    out.extend_from_slice(dst_addr.as_bytes());
    out.extend_from_slice(src_addr.as_bytes());
    out.push((ethertype.0 / 0x100) as u8);
    out.push((ethertype.0 % 0x100) as u8);
    out.append(buf);
    assert(out@ =~= ethernet_frame(dst_addr@, src_addr@, ethertype, old(buf)@));
    *buf = out;
}

/// An IPv4 packet that was built parses as what it was built from, as long as its length fits
/// the length field, and its header checksum is right unless the device fills it in.
pub proof fn law_ipv4_packet(
    src_addr: ipv4::Address,
    dst_addr: ipv4::Address,
    next_header: Protocol,
    hop_limit: u8,
    offload: bool,
    payload: Seq<u8>,
)
    requires
        ipv4::HEADER_LEN + payload.len() <= 0xffff,
    ensures
        ({
            let s = ipv4_packet(src_addr, dst_addr, next_header, hop_limit, offload, payload);
            let header = ipv4::header(s);
            &&& ipv4::well_formed(s)
            &&& header.version == 4
            &&& header.header_len == ipv4::HEADER_LEN
            &&& header.total_len == s.len()
            &&& !header.more_frags
            &&& header.frag_offset == 0
            &&& header.hop_limit == hop_limit
            &&& header.next_header == next_header
            &&& header.src_addr == src_addr
            &&& header.dst_addr == dst_addr
            &&& ipv4::payload(s) == payload
            &&& !offload ==> fold(word_sum(s.take(header.header_len))) == 0xffff
            &&& s[0] == 0x45
            &&& be16(s, 2) == s.len()
            &&& s[6] == 0x40 && s[7] == 0
            &&& s[8] == hop_limit
            &&& s[9] == next_header.0
            &&& !offload ==> fold(word_sum(s.take(20))) == 0xffff
            &&& offload ==> s[10] == 0 && s[11] == 0
            &&& be32(s, 12) == src_addr.bits
            &&& be32(s, 16) == dst_addr.bits
            &&& s.skip(20) == payload
        }),
{
    let s = ipv4_packet(src_addr, dst_addr, next_header, hop_limit, offload, payload);
    let bare = ipv4_header(src_addr, dst_addr, next_header, hop_limit, payload.len());
    assert(bare.len() == 20);
    lemma_be32_octets32(src_addr.bits as int);
    lemma_be32_octets32(dst_addr.bits as int);
    assert(be32(s, 12) == src_addr.bits) by {
        assert(s.subrange(12, 16) =~= octets32(src_addr.bits as int));
        assert(forall|k: int| 0 <= k < 4 ==> s[12 + k] == #[trigger] s.subrange(12, 16)[k]);
    }
    assert(be32(s, 16) == dst_addr.bits) by {
        assert(s.subrange(16, 20) =~= octets32(dst_addr.bits as int));
        assert(forall|k: int| 0 <= k < 4 ==> s[16 + k] == #[trigger] s.subrange(16, 20)[k]);
    }
    assert(s[0] == 0x45 && s[6] == 0x40 && s[7] == 0x00);
    assert(s.subrange(20, s.len() as int) =~= payload);
    assert(s.skip(20) =~= payload);
    if !offload {
        let sum = word_sum(bare);
        law_word_sum_put16(bare, 10, 0xffff - fold(sum));
        law_complement(sum);
        assert(s.take(20) =~= put16(bare, 10, 0xffff - fold(sum)));
    }
}

/// An IPv6 packet that was built parses as what it was built from, as long as its length fits
/// the length field.
#[verifier::rlimit(60)]
pub proof fn law_ipv6_packet(
    src_addr: ipv6::Address,
    dst_addr: ipv6::Address,
    next_header: Protocol,
    hop_limit: u8,
    payload: Seq<u8>,
)
    requires
        payload.len() <= 0xffff,
    ensures
        ({
            let s = ipv6_header(src_addr, dst_addr, next_header, hop_limit, payload.len())
                + payload;
            let header = ipv6::header(s);
            &&& ipv6::well_formed(s)
            &&& header.version == 6
            &&& header.traffic_class == 0
            &&& header.flow_label == 0
            &&& header.payload_len == payload.len()
            &&& header.hop_limit == hop_limit
            &&& header.next_header == next_header
            &&& header.src_addr == src_addr
            &&& header.dst_addr == dst_addr
            &&& ipv6::payload(s) == payload
            &&& s[0] == 0x60 && s[1] == 0 && s[2] == 0 && s[3] == 0
            &&& be16(s, 4) == payload.len()
            &&& s[6] == next_header.0
            &&& s[7] == hop_limit
            &&& be128(s, 8) == src_addr.bits
            &&& be128(s, 24) == dst_addr.bits
            &&& s.skip(40) == payload
        }),
{
    let s = ipv6_header(src_addr, dst_addr, next_header, hop_limit, payload.len()) + payload;
    let front = ipv6_front(payload.len(), next_header, hop_limit);
    let src = ipv6::address_octets(src_addr.bits);
    let dst = ipv6::address_octets(dst_addr.bits);
    ipv6::lemma_octets_len(src_addr);
    ipv6::lemma_octets_len(dst_addr);
    lemma_be128_octets128(src_addr.bits as int);
    lemma_be128_octets128(dst_addr.bits as int);
    lemma_ipv6_front(payload.len(), next_header, hop_limit);
    lemma_ipv6_fields(front, src, dst, payload, src_addr, dst_addr);
    assert(s == front + src + dst + payload) by {
        reveal(ipv6_header);
        reveal(ipv6_front);
    }
}

/// The first eight octets of an IPv6 header.
#[verifier::opaque]
spec fn ipv6_front(payload_len: nat, next_header: Protocol, hop_limit: u8) -> Seq<u8> {
    seq![0x60u8, 0x00, 0x00, 0x00] + octets16(payload_len as int % 0x1_0000) + seq![
        next_header.0,
        hop_limit,
    ]
}

/// What the first eight octets of an IPv6 header hold.
proof fn lemma_ipv6_front(payload_len: nat, next_header: Protocol, hop_limit: u8)
    requires
        payload_len <= 0xffff,
    ensures
        ({
            let front = ipv6_front(payload_len, next_header, hop_limit);
            &&& front.len() == 8
            &&& front[0] == 0x60 && front[1] == 0 && front[2] == 0 && front[3] == 0
            &&& be16(front, 4) == payload_len
            &&& front[6] == next_header.0
            &&& front[7] == hop_limit
        }),
{
    reveal(ipv6_front);
}

/// The fields of an IPv6 packet that is put together from its parts.
proof fn lemma_ipv6_fields(
    front: Seq<u8>,
    src: Seq<u8>,
    dst: Seq<u8>,
    payload: Seq<u8>,
    src_addr: ipv6::Address,
    dst_addr: ipv6::Address,
)
    requires
        front.len() == 8,
        src.len() == 16,
        dst.len() == 16,
        payload.len() <= 0xffff,
        front[0] == 0x60,
        front[1] == 0,
        front[2] == 0,
        front[3] == 0,
        be16(front, 4) == payload.len(),
        be128(src, 0) == src_addr.bits,
        be128(dst, 0) == dst_addr.bits,
    ensures
        ({
            let s = front + src + dst + payload;
            let header = ipv6::header(s);
            &&& ipv6::well_formed(s)
            &&& header.version == 6
            &&& header.traffic_class == 0
            &&& header.flow_label == 0
            &&& header.payload_len == payload.len()
            &&& header.hop_limit == front[7]
            &&& header.next_header == Protocol(front[6])
            &&& header.src_addr == src_addr
            &&& header.dst_addr == dst_addr
            &&& ipv6::payload(s) == payload
            &&& s[0] == front[0] && s[1] == front[1] && s[2] == front[2] && s[3] == front[3]
            &&& s[4] == front[4] && s[5] == front[5] && s[6] == front[6] && s[7] == front[7]
            &&& be128(s, 8) == src_addr.bits
            &&& be128(s, 24) == dst_addr.bits
            &&& s.skip(40) == payload
        }),
{
    let s = front + src + dst + payload;
    assert(s.skip(40) =~= payload);
    lemma_ipv6_parts(front, src, dst, payload);
    assert(s[0] == front[0] && s[1] == front[1] && s[2] == front[2] && s[3] == front[3]);
    assert(s[4] == front[4] && s[5] == front[5] && s[6] == front[6] && s[7] == front[7]);
}

/// Where the parts of an IPv6 packet are.
proof fn lemma_ipv6_parts(front: Seq<u8>, src: Seq<u8>, dst: Seq<u8>, payload: Seq<u8>)
    requires
        front.len() == 8,
        src.len() == 16,
        dst.len() == 16,
    ensures
        ({
            let s = front + src + dst + payload;
            &&& s.len() == 40 + payload.len()
            &&& forall|k: int| 0 <= k < 8 ==> #[trigger] s[k] == front[k]
            &&& be128(s, 8) == be128(src, 0)
            &&& be128(s, 24) == be128(dst, 0)
            &&& s.subrange(40, s.len() as int) == payload
        }),
{
    let s = front + src + dst + payload;
    ipv6::lemma_be128_shift(s, 8, src);
    ipv6::lemma_be128_shift(s, 24, dst);
    assert(s.subrange(40, s.len() as int) =~= payload);
}

/// The reply to an echo request carries the identifier, sequence number and payload of the
/// request back, and passes the checksum validation of the host that sent the request.
pub proof fn law_echo_reply(
    request: Seq<u8>,
    src_addr: ipv6::Address,
    dst_addr: ipv6::Address,
)
    requires
        request.len() >= 8,
    ensures
        ({
            let reply = control4::with_checksum(request.update(0, control4::ECHO_REPLY), false);
            &&& reply[0] == 0
            &&& reply[1] == request[1]
            &&& reply.skip(4) == request.skip(4)
            &&& control4::checksum_ok(reply)
        }),
        ({
            let reply = control6::with_checksum(
                request.update(0, control6::ECHO_REPLY),
                src_addr,
                dst_addr,
                false,
            );
            &&& reply[0] == 129
            &&& reply[1] == request[1]
            &&& reply.skip(4) == request.skip(4)
            &&& control6::checksum_ok(reply, src_addr, dst_addr)
        }),
{
    control4::law_filled_checksum(request.update(0, control4::ECHO_REPLY));
    control6::law_filled_checksum(request.update(0, control6::ECHO_REPLY), src_addr, dst_addr);
}

/// What an ICMPv4 error holds: its type and its code, four octets that are zero, and the beginning
/// of the packet that it is about. It is the whole of that packet wherever the error then still
/// fits the smallest MTU, and else as much of it as makes the error exactly that long. Its
/// checksum is right unless the device fills it in.
pub proof fn law_error4(orig: Seq<u8>, msg_type: u8, msg_code: u8, offload: bool)
    ensures
        ({
            let s = error4(orig, msg_type, msg_code, offload);
            &&& s[0] == msg_type
            &&& s[1] == msg_code
            &&& s[4] == 0 && s[5] == 0 && s[6] == 0 && s[7] == 0
            &&& orig.len() <= 548 ==> s.skip(8) == orig
            &&& orig.len() > 548 ==> s.skip(8) == orig.take(548)
            &&& offload ==> s[2] == 0 && s[3] == 0
            &&& !offload ==> fold(word_sum(s)) == 0xffff
        }),
{
    let s = error4(orig, msg_type, msg_code, offload);
    let bare = seq![msg_type, msg_code, 0, 0, 0, 0, 0, 0] + quote(orig, ICMPV4_QUOTE_LEN as int);
    control4::law_with_checksum(bare, offload);
    assert forall|k: int| 4 <= k < s.len() implies #[trigger] s[k] == bare[k] by {
        assert(s.skip(4)[k - 4] == bare.skip(4)[k - 4]);
    }
    assert(s.skip(8) =~= quote(orig, ICMPV4_QUOTE_LEN as int));
}

/// What an ICMPv6 error holds: its type and its code, the pointer if it is a parameter problem and
/// else four octets that are zero, and the beginning of the packet that it is about. It is the
/// whole of that packet wherever the error then still fits the smallest MTU, and else as much of
/// it as makes the error exactly that long. Its checksum is right unless the device fills it in.
pub proof fn law_error6(
    orig: Seq<u8>,
    src_addr: ipv6::Address,
    dst_addr: ipv6::Address,
    msg_type: u8,
    msg_code: u8,
    pointer: u32,
    offload: bool,
)
    ensures
        ({
            let s = error6(orig, src_addr, dst_addr, msg_type, msg_code, pointer, offload);
            &&& s[0] == msg_type
            &&& s[1] == msg_code
            &&& msg_type == 4 ==> be32(s, 4) == pointer
            &&& msg_type != 4 ==> be32(s, 4) == 0
            &&& orig.len() <= 1232 ==> s.skip(8) == orig
            &&& orig.len() > 1232 ==> s.skip(8) == orig.take(1232)
            &&& offload ==> s[2] == 0 && s[3] == 0
            &&& !offload ==> control6::checksum_ok(s, src_addr, dst_addr)
        }),
{
    let s = error6(orig, src_addr, dst_addr, msg_type, msg_code, pointer, offload);
    let quoted = quote(orig, ICMPV6_QUOTE_LEN as int);
    let field = if msg_type == control6::PARAM_PROBLEM {
        octets32(pointer as int)
    } else {
        octets32(0)
    };
    let bare = seq![msg_type, msg_code, 0, 0] + field + quoted;
    lemma_be32_octets32(pointer as int);
    lemma_be32_octets32(0);
    assert(field.len() == 4);
    lemma_error_parts(msg_type, msg_code, field, quoted);
    control6::law_with_checksum(bare, src_addr, dst_addr, offload);
    assert(s == control6::with_checksum(bare, src_addr, dst_addr, offload));
    lemma_same_tail(s, bare);
}

/// Where the parts of an error message are, before its checksum is filled in.
proof fn lemma_error_parts(msg_type: u8, msg_code: u8, field: Seq<u8>, quoted: Seq<u8>)
    requires
        field.len() == 4,
    ensures
        ({
            let bare = seq![msg_type, msg_code, 0, 0] + field + quoted;
            &&& bare.len() >= 8
            &&& bare[0] == msg_type && bare[1] == msg_code
            &&& be32(bare, 4) == be32(field, 0)
            &&& bare.skip(8) == quoted
        }),
{
    let bare = seq![msg_type, msg_code, 0, 0] + field + quoted;
    assert(bare.skip(8) =~= quoted);
}

/// What two messages have in common that differ in the octets before the fifth one at most.
proof fn lemma_same_tail(s: Seq<u8>, t: Seq<u8>)
    requires
        s.len() == t.len(),
        s.len() >= 8,
        s.skip(4) == t.skip(4),
    ensures
        be32(s, 4) == be32(t, 4),
        s.skip(8) == t.skip(8),
{
    assert(forall|k: int| 0 <= k < s.len() - 4 ==> #[trigger] s.skip(4)[k] == t.skip(4)[k]);
    assert(s.skip(4)[0] == s[4] && s.skip(4)[1] == s[5] && s.skip(4)[2] == s[6] && s.skip(4)[3]
        == s[7]);
    assert(t.skip(4)[0] == t[4] && t.skip(4)[1] == t[5] && t.skip(4)[2] == t[6] && t.skip(4)[3]
        == t[7]);
    assert(s.skip(8) =~= s.skip(4).skip(4));
    assert(t.skip(8) =~= t.skip(4).skip(4));
}

/// An Ethernet frame that was built starts with the destination, the source and the type, and
/// the rest of it is what was handed over.
pub proof fn law_ethernet_frame(
    dst_addr: Seq<u8>,
    src_addr: Seq<u8>,
    ethertype: EtherType,
    payload: Seq<u8>,
)
    requires
        dst_addr.len() == 6,
        src_addr.len() == 6,
    ensures
        ({
            let s = ethernet_frame(dst_addr, src_addr, ethertype, payload);
            &&& s.take(6) == dst_addr
            &&& s.subrange(6, 12) == src_addr
            &&& be16(s, 12) == ethertype.0
            &&& s.skip(14) == payload
        }),
{
    let s = ethernet_frame(dst_addr, src_addr, ethertype, payload);
    assert(s.take(6) =~= dst_addr);
    assert(s.subrange(6, 12) =~= src_addr);
    assert(s.skip(14) =~= payload);
}

} // verus!

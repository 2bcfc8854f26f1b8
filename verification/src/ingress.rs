//! Processing received frames, down to the upper-layer protocol of the packet that they carry.

use vstd::prelude::*;

use crate::control::{is_control4, is_control6, ControlIngress};
use crate::discovery::{failure4, failure6};
use crate::driver::Medium;
use crate::egress::{
    error4, error6, law_error_fits, law_ipv4_packet, law_ipv6_packet, quote, ICMPV4_QUOTE_LEN,
    ICMPV6_QUOTE_LEN,
};
use crate::endian::{be128, be16, be32, octets32, read_u16};
use crate::iface::{IfaceHandle, IfaceState};
use crate::options::{hop_by_hop, process_hop_by_hop, HopByHopAction};
use crate::reply::{is_error_reply4, is_error_reply6, transmit_icmpv6_error, Reply};
use crate::stack::{Stack, TcpHandle, TcpSocketState, Tuple};
use crate::storage::occupied;
use crate::wire::checksum::{fold, word_sum};
use crate::wire::ethernet::{
    self, broadcast_octets, Address as EthernetAddress, EtherType, ETHERTYPE_ARP, ETHERTYPE_IPV4,
    ETHERTYPE_IPV6,
};
use crate::wire::ip::{
    version_of, Address as IpAddress, Endpoint as IpEndpoint, Protocol, Version as IpVersion,
    HOP_BY_HOP, ICMP, ICMPV6, IGMP, TCP, UDP,
};
use crate::wire::{control4, control6, ipv4, ipv6, tcp, udp, HardwareAddress};

verus! {

/// The upper layer that an Ethernet frame is for.
#[derive(Debug, Clone, Copy, PartialEq, Eq, Structural)]
pub enum EthernetUpper {
    /// The frame carries an ARP packet.
    Arp,
    /// The frame carries an IPv4 packet.
    Ipv4,
    /// The frame carries an IPv6 packet.
    Ipv6,
    /// The stack does not process the frame.
    Unsupported,
}

/// A frame that is for the interface.
pub struct EthernetIngress {
    /// The source of the frame.
    pub src_addr: EthernetAddress,
    /// The type of the frame.
    pub ethertype: EtherType,
    /// The upper layer that the frame is for, after raw sockets were offered it. Frames that
    /// the stack itself processes are copied to a raw socket, everything else is consumed by
    /// it.
    pub upper: EthernetUpper,
}

/// The upper layer of an ethertype.
pub open spec fn ethernet_upper(ethertype: EtherType) -> EthernetUpper {
    if ethertype.0 == ETHERTYPE_ARP {
        EthernetUpper::Arp
    } else if ethertype.0 == ETHERTYPE_IPV4 {
        EthernetUpper::Ipv4
    } else if ethertype.0 == ETHERTYPE_IPV6 {
        EthernetUpper::Ipv6
    } else {
        EthernetUpper::Unsupported
    }
}

/// Whether a frame is for the interface: it is sent to the broadcast address, to a multicast
/// group, or to the hardware address of the interface.
pub open spec fn frame_accepted(iface: IfaceState, s: Seq<u8>) -> bool {
    &&& s.len() >= ethernet::HEADER_LEN
    &&& s.take(6) == broadcast_octets() || s[0] % 2 == 1 || s.take(6) == iface.hardware_addr@
}

/// How the frames of a medium are processed.
#[derive(Debug, Clone, Copy, PartialEq, Eq, Structural)]
pub enum FrameKind {
    /// The frame is an Ethernet frame.
    Ethernet,
    /// The frame is an IP packet.
    Ip,
    /// The frame is an IEEE 802.15.4 frame.
    Ieee802154,
}

/// How the frames of a medium are processed, and by what outermost header they are known.
pub fn process(medium: Medium) -> (kind: FrameKind)
    ensures
        kind == match medium {
            Medium::Ethernet => FrameKind::Ethernet,
            Medium::Ip => FrameKind::Ip,
            Medium::Ieee802154 => FrameKind::Ieee802154,
        },
{
    match medium {
        Medium::Ethernet => FrameKind::Ethernet,
        Medium::Ip => FrameKind::Ip,
        Medium::Ieee802154 => FrameKind::Ieee802154,
    }
}

/// Process a bare IP packet: its version, or `None` if it is dropped.
pub fn process_ip(buf: &[u8]) -> (version: Option<IpVersion>)
    ensures
        version == version_of(buf@),
{
    match IpVersion::of_packet(buf) {
        Ok(version) => Some(version),
        Err(_) => None,
    }
}

impl IfaceState {
    /// Process an Ethernet frame. `None` if it is dropped: packets not directed to our
    /// hardware address or any of the multicast groups are ignored.
    pub fn process_ethernet(&self, frame: &[u8]) -> (ingress: Option<EthernetIngress>)
        requires
            self.hardware_addr is Ethernet,
        ensures
            ingress is Some <==> frame_accepted(*self, frame@),
            ingress matches Some(i) ==> {
                &&& i.src_addr@ == frame@.subrange(6, 12)
                &&& i.ethertype.0 == be16(frame@, 12)
                &&& i.upper == ethernet_upper(i.ethertype)
            },
    {
        if frame.len() < ethernet::HEADER_LEN {
            return None;
        }
        let dst_addr = EthernetAddress::from_bytes(&frame[0..6]);
        let own_addr = self.ethernet_addr();
        assert(frame@.subrange(0, 6) =~= frame@.take(6));
        assert(dst_addr@[0] == frame@[0]);
        proof {
            if dst_addr@ == own_addr@ {
                assert forall|i: int| 0 <= i < 6 implies dst_addr.0[i] == own_addr.0[i] by {
                    assert(dst_addr@[i] == own_addr@[i]);
                }
                assert(dst_addr.0 =~= own_addr.0);
            }
        }
        if !dst_addr.is_broadcast() && !dst_addr.is_multicast() && dst_addr != own_addr {
            return None;
        }
        let src_addr = EthernetAddress::from_bytes(&frame[6..12]);
        let ethertype = EtherType(read_u16(frame, 12));
        let upper = if ethertype.0 == ETHERTYPE_ARP {
            EthernetUpper::Arp
        } else if ethertype.0 == ETHERTYPE_IPV4 {
            EthernetUpper::Ipv4
        } else if ethertype.0 == ETHERTYPE_IPV6 {
            EthernetUpper::Ipv6
        } else {
            EthernetUpper::Unsupported
        };
        Some(EthernetIngress { src_addr, ethertype, upper })
    }
}

/// The port of DHCP servers.
pub const DHCP_SERVER_PORT: u16 = 67;

/// The port of DHCP clients.
pub const DHCP_CLIENT_PORT: u16 = 68;

/// The parts of DHCP that run on an interface.
#[derive(Debug, Clone, Copy, PartialEq, Eq, Structural)]
pub struct DhcpRoles {
    /// The interface has a DHCP client.
    pub client: bool,
    /// The interface has a DHCP server.
    pub server: bool,
}

/// An IPv4 packet that is for the interface.
pub struct Ipv4Accepted {
    /// The source of the packet.
    pub src_addr: ipv4::Address,
    /// The destination of the packet.
    pub dst_addr: ipv4::Address,
    /// The upper-layer protocol.
    pub next_header: Protocol,
    /// The length of the header.
    pub header_len: usize,
    /// The Ethernet address of the sender, if the neighbor is known to be alive by this packet.
    pub refresh: Option<EthernetAddress>,
    /// Whether the stack itself processes the protocol. Such packets are copied to a raw
    /// socket, everything else is consumed by it.
    pub stack_wants: bool,
    /// The packet, without any padding that the link layer added.
    pub packet: Vec<u8>,
}

/// What is to be done about an IPv4 packet.
pub enum Ipv4Ingress {
    /// Nothing.
    Drop,
    /// The packet is a fragment. What it completes is processed as a whole packet.
    Reassemble(Vec<u8>),
    /// A message for the DHCP client.
    DhcpClient {
        /// The source of the packet.
        src_addr: ipv4::Address,
        /// The message.
        payload: Vec<u8>,
    },
    /// A message for the DHCP server.
    DhcpServer {
        /// The source of the packet.
        src_addr: ipv4::Address,
        /// The message.
        payload: Vec<u8>,
    },
    /// The packet is offered to raw sockets, and then to its upper layer.
    Accept(Ipv4Accepted),
}

/// Whether the packet `s` is a message to a DHCP client.
pub open spec fn to_dhcp_client(s: Seq<u8>) -> bool {
    &&& ipv4::header(s).next_header.0 == UDP
    &&& udp::well_formed(ipv4::payload(s))
    &&& udp::src_port_of(ipv4::payload(s)) == DHCP_SERVER_PORT
    &&& udp::dst_port_of(ipv4::payload(s)) == DHCP_CLIENT_PORT
}

/// Whether the packet `s` is a message to the DHCP server on an interface.
pub open spec fn to_dhcp_server(iface: IfaceState, s: Seq<u8>) -> bool {
    let dst_addr = ipv4::header(s).dst_addr;
    &&& ipv4::header(s).next_header.0 == UDP
    &&& iface.spec_is_broadcast_v4(dst_addr) || iface.spec_has_ip_addr(IpAddress::Ipv4(dst_addr))
    &&& udp::well_formed(ipv4::payload(s))
    &&& udp::dst_port_of(ipv4::payload(s)) == DHCP_SERVER_PORT
}

/// Whether the UDP checksum of the packet `s` is right, or not the stack's to verify.
pub open spec fn datagram_ok(iface: IfaceState, s: Seq<u8>) -> bool {
    iface.checksum.udp.rx || udp::checksum_ok(
        ipv4::payload(s),
        IpAddress::Ipv4(ipv4::header(s).src_addr),
        IpAddress::Ipv4(ipv4::header(s).dst_addr),
    )
}

/// Whether the stack processes packets with the given addresses: the source is unicast, or
/// unspecified, and the destination is an address of the interface, a group that it is in, or a
/// broadcast address.
pub open spec fn addresses_ok4(
    iface: IfaceState,
    src_addr: ipv4::Address,
    dst_addr: ipv4::Address,
) -> bool {
    &&& iface.spec_is_unicast_v4(src_addr) || src_addr.bits == 0
    &&& iface.spec_has_ip_addr(IpAddress::Ipv4(dst_addr)) || iface.spec_has_multicast_group(
        IpAddress::Ipv4(dst_addr),
    ) || iface.spec_is_broadcast_v4(dst_addr)
}

/// Whether the stack processes an IPv4 upper-layer protocol.
pub open spec fn wants4(protocol: Protocol) -> bool {
    protocol.0 == ICMP || protocol.0 == UDP || protocol.0 == TCP || protocol.0 == IGMP
}

/// Whether `accepted` is the packet that `s` starts with.
pub open spec fn is_accepted4(
    iface: IfaceState,
    eth_src: Option<EthernetAddress>,
    s: Seq<u8>,
    accepted: Ipv4Accepted,
) -> bool {
    let header = ipv4::header(s);
    &&& accepted.src_addr == header.src_addr
    &&& accepted.dst_addr == header.dst_addr
    &&& accepted.next_header == header.next_header
    &&& accepted.header_len == header.header_len
    &&& accepted.refresh == if iface.spec_is_unicast_v4(header.dst_addr) {
        eth_src
    } else {
        None
    }
    &&& accepted.stack_wants == wants4(header.next_header)
    &&& accepted.packet@ == s.take(header.total_len)
}

/// Whether `ingress` is what is to be done about a packet that is not a fragment.
///
/// The DHCP client sees its replies before the destination check: they may be addressed to the
/// address being leased, which isn't ours yet, or to broadcast.
pub open spec fn is_whole4(
    iface: IfaceState,
    roles: DhcpRoles,
    eth_src: Option<EthernetAddress>,
    s: Seq<u8>,
    ingress: Ipv4Ingress,
) -> bool {
    let header = ipv4::header(s);
    if !ipv4::well_formed(s) {
        ingress is Drop
    } else if roles.client && to_dhcp_client(s) {
        if datagram_ok(iface, s) {
            ingress matches Ipv4Ingress::DhcpClient { src_addr, payload } && src_addr
                == header.src_addr && payload@ == udp::payload(ipv4::payload(s))
        } else {
            ingress is Drop
        }
    } else if roles.server && to_dhcp_server(iface, s) {
        if datagram_ok(iface, s) {
            ingress matches Ipv4Ingress::DhcpServer { src_addr, payload } && src_addr
                == header.src_addr && payload@ == udp::payload(ipv4::payload(s))
        } else {
            ingress is Drop
        }
    } else if addresses_ok4(iface, header.src_addr, header.dst_addr) {
        ingress matches Ipv4Ingress::Accept(accepted) && is_accepted4(iface, eth_src, s, accepted)
    } else {
        ingress is Drop
    }
}

/// Whether the header of the packet `s` is acceptable: it is well formed, of version 4, and has
/// the right checksum, unless that is not the stack's to verify.
pub open spec fn header_ok4(iface: IfaceState, s: Seq<u8>) -> bool {
    &&& ipv4::well_formed(s)
    &&& ipv4::header(s).version == 4
    &&& iface.checksum.ipv4.rx || fold(word_sum(s.take(ipv4::header(s).header_len))) == 0xffff
}

/// Whether the packet `s` is a fragment.
pub open spec fn is_fragment(s: Seq<u8>) -> bool {
    ipv4::header(s).more_frags || ipv4::header(s).frag_offset != 0
}

impl IfaceState {
    /// Process an IPv4 packet, `eth_src` being the source of the Ethernet frame that it arrived
    /// in.
    pub fn process_ipv4(
        &self,
        roles: DhcpRoles,
        eth_src: Option<EthernetAddress>,
        buf: Vec<u8>,
    ) -> (ingress: Ipv4Ingress)
        ensures
            !header_ok4(*self, buf@) ==> ingress is Drop,
            header_ok4(*self, buf@) && is_fragment(buf@) ==> (ingress matches Ipv4Ingress::Reassemble(
                fragment,
            ) && fragment@ == buf@),
            header_ok4(*self, buf@) && !is_fragment(buf@) ==> is_whole4(
                *self,
                roles,
                eth_src,
                buf@,
                ingress,
            ),
            ingress is Reassemble <==> header_ok4(*self, buf@) && (be16(buf@, 6) / 0x2000 % 2 == 1
                || be16(buf@, 6) % 0x2000 != 0),
    {
        let mut buf: Vec<u8> = buf;
        let packet = match ipv4::Packet::new_checked(buf.as_mut_slice()) {
            Ok(packet) => packet,
            Err(_) => return Ipv4Ingress::Drop,
        };
        if packet.version() != 4 {
            return Ipv4Ingress::Drop;
        }
        if !self.checksum.ipv4.rx && !packet.verify_checksum() {
            return Ipv4Ingress::Drop;
        }
        if packet.more_frags() || packet.frag_offset() != 0 {
            return Ipv4Ingress::Reassemble(buf);
        }
        self.process_ipv4_whole(roles, eth_src, buf)
    }

    /// Process an IPv4 packet that is not a fragment, or was put together from fragments.
    pub fn process_ipv4_whole(
        &self,
        roles: DhcpRoles,
        eth_src: Option<EthernetAddress>,
        buf: Vec<u8>,
    ) -> (ingress: Ipv4Ingress)
        ensures
            is_whole4(*self, roles, eth_src, buf@, ingress),
    {
        let mut buf: Vec<u8> = buf;
        let ghost s = buf@;
        let packet = match ipv4::Packet::new_checked(buf.as_mut_slice()) {
            Ok(packet) => packet,
            Err(_) => return Ipv4Ingress::Drop,
        };
        let src_addr = packet.src_addr();
        let dst_addr = packet.dst_addr();
        let next_header = packet.next_header();
        let header_len: usize = packet.header_len() as usize;
        let total_len: usize = packet.total_len() as usize;
        if next_header.0 == UDP {
            let datagram: &[u8] = &buf.as_slice()[header_len..total_len];
            assert(datagram@ == ipv4::payload(s));
            if udp::check_len(datagram) {
                let for_us = self.is_broadcast_v4(dst_addr) || self.has_ip_addr(
                    IpAddress::Ipv4(dst_addr),
                );
                let client = roles.client && udp::src_port(datagram) == DHCP_SERVER_PORT
                    && udp::dst_port(datagram) == DHCP_CLIENT_PORT;
                let server = roles.server && for_us && udp::dst_port(datagram) == DHCP_SERVER_PORT;
                if client || server {
                    let src = IpAddress::Ipv4(src_addr);
                    let dst = IpAddress::Ipv4(dst_addr);
                    if !self.checksum.udp.rx && !udp::verify_checksum(datagram, &src, &dst) {
                        return Ipv4Ingress::Drop;
                    }
                    let payload: Vec<u8> = udp::payload_of(datagram);
                    return if client {
                        Ipv4Ingress::DhcpClient { src_addr, payload }
                    } else {
                        Ipv4Ingress::DhcpServer { src_addr, payload }
                    };
                }
            }
        }
        if !self.is_unicast_v4(src_addr) && !src_addr.is_unspecified() {
            // Discard packets with non-unicast source addresses but allow unspecified
            return Ipv4Ingress::Drop;
        }
        let dst = IpAddress::Ipv4(dst_addr);
        if !self.has_ip_addr(dst) && !self.has_multicast_group(dst) && !self.is_broadcast_v4(
            dst_addr,
        ) {
            // Ignore IP packets not directed at us, or broadcast, or any of the multicast
            // groups.
            return Ipv4Ingress::Drop;
        }
        let refresh = if self.is_unicast_v4(dst_addr) {
            eth_src
        } else {
            None
        };
        // Strip any trailing padding added by the link layer.
        buf.truncate(total_len);
        Ipv4Ingress::Accept(
            Ipv4Accepted {
                src_addr,
                dst_addr,
                next_header,
                header_len,
                refresh,
                stack_wants: next_header.0 == ICMP || next_header.0 == UDP || next_header.0 == TCP
                    || next_header.0 == IGMP,
                packet: buf,
            },
        )
    }
}

/// What is to be done about the payload of an IP packet.
pub enum UpperIngress {
    /// An ICMP message.
    Control(ControlIngress),
    /// An IGMP message.
    Igmp(Vec<u8>),
    /// A UDP datagram.
    Udp(Vec<u8>),
    /// A TCP segment.
    Tcp(Vec<u8>),
    /// The stack does not process the protocol: the error to send, if one may be sent.
    Unsupported(Option<Reply>),
}

/// Whether `ingress` is what is to be done about the payload of an IPv4 packet. The whole
/// packet is quoted in the error about a protocol that the stack does not process.
pub open spec fn is_upper4(
    iface: IfaceState,
    accepted: Ipv4Accepted,
    ingress: UpperIngress,
) -> bool {
    let payload = accepted.packet@.skip(accepted.header_len as int);
    if accepted.next_header.0 == ICMP {
        ingress matches UpperIngress::Control(control) && is_control4(
            iface,
            accepted.src_addr,
            accepted.dst_addr,
            payload,
            control,
        )
    } else if accepted.next_header.0 == IGMP {
        ingress matches UpperIngress::Igmp(message) && message@ == payload
    } else if accepted.next_header.0 == UDP {
        ingress matches UpperIngress::Udp(datagram) && datagram@ == payload
    } else if accepted.next_header.0 == TCP {
        ingress matches UpperIngress::Tcp(segment) && segment@ == payload
    } else {
        ingress matches UpperIngress::Unsupported(reply) && is_error_reply4(
            iface,
            accepted.packet@,
            control4::DST_UNREACHABLE,
            control4::PROTO_UNREACHABLE,
            reply,
        )
    }
}

/// The octets from an offset on.
fn tail(octets: &[u8], from: usize) -> (rest: Vec<u8>)
    requires
        from <= octets@.len(),
    ensures
        rest@ == octets@.skip(from as int),
{
    let len: usize = octets.len();
    let mut rest: Vec<u8> = Vec::new();
    rest.extend_from_slice(&octets[from..len]);
    assert(rest@ =~= octets@.skip(from as int));
    rest
}

impl IfaceState {
    /// Hand the payload of an accepted IPv4 packet to its upper layer. A protocol that the
    /// stack does not process is answered with an ICMP protocol unreachable error (RFC 792).
    pub fn process_ipv4_upper(&self, accepted: Ipv4Accepted) -> (ingress: UpperIngress)
        requires
            20 <= accepted.header_len <= accepted.packet@.len(),
        ensures
            is_upper4(*self, accepted, ingress),
    {
        let next_header = accepted.next_header;
        if next_header.0 != ICMP && next_header.0 != IGMP && next_header.0 != UDP && next_header.0
            != TCP {
            return UpperIngress::Unsupported(
                self.transmit_icmpv4_error(
                    accepted.packet,
                    control4::DST_UNREACHABLE,
                    control4::PROTO_UNREACHABLE,
                ),
            );
        }
        let payload: Vec<u8> = tail(accepted.packet.as_slice(), accepted.header_len);
        if next_header.0 == ICMP {
            UpperIngress::Control(
                self.process_icmpv4(accepted.src_addr, accepted.dst_addr, payload),
            )
        } else if next_header.0 == IGMP {
            UpperIngress::Igmp(payload)
        } else if next_header.0 == UDP {
            UpperIngress::Udp(payload)
        } else {
            UpperIngress::Tcp(payload)
        }
    }
}

/// An IPv6 packet whose payload goes to its upper layer.
pub struct Ipv6Accepted {
    /// The source of the packet.
    pub src_addr: ipv6::Address,
    /// The destination of the packet.
    pub dst_addr: ipv6::Address,
    /// The hop limit that the packet arrived with.
    pub hop_limit: u8,
    /// The upper-layer protocol.
    pub next_header: Protocol,
    /// Where the upper-layer header starts.
    pub l4_offset: usize,
    /// The offset of the field that names the upper-layer protocol.
    pub nh_offset: u32,
    /// Whether the stack itself processes the protocol. Such packets are copied to a raw
    /// socket, everything else is consumed by it.
    pub stack_wants: bool,
    /// The packet, without any padding that the link layer added.
    pub packet: Vec<u8>,
}

/// What is to be done about an IPv6 packet.
pub enum Ipv6Action {
    /// Nothing.
    Drop,
    /// Send an error about an option that is not recognized, if one may be sent.
    Error(Option<Reply>),
    /// The packet is offered to raw sockets, and then to its upper layer.
    Accept(Ipv6Accepted),
}

/// What an IPv6 packet leads to.
pub struct Ipv6Ingress {
    /// The link-layer address of the sender, if the neighbor is known to be alive by this
    /// packet.
    pub refresh: Option<HardwareAddress>,
    /// What is to be done about the packet.
    pub action: Ipv6Action,
}

/// Whether the stack processes an IPv6 packet: it is well formed and of version 6, the source
/// is unicast, and the destination is an address of the interface, a group that it is in, or the
/// loopback address.
pub open spec fn accepted6(iface: IfaceState, s: Seq<u8>) -> bool {
    let header = ipv6::header(s);
    &&& ipv6::well_formed(s)
    &&& header.version == 6
    &&& header.src_addr.spec_is_unicast()
    &&& iface.spec_has_ip_addr(IpAddress::Ipv6(header.dst_addr)) || iface.spec_has_multicast_group(
        IpAddress::Ipv6(header.dst_addr),
    ) || header.dst_addr.bits == 1
}

/// Whether the stack processes an IPv6 upper-layer protocol.
pub open spec fn wants6(protocol: Protocol) -> bool {
    protocol.0 == ICMPV6 || protocol.0 == UDP || protocol.0 == TCP
}

/// The packet that `s` starts with.
pub open spec fn packet6(s: Seq<u8>) -> Seq<u8> {
    s.take(ipv6::HEADER_LEN + ipv6::header(s).payload_len)
}

/// Whether `accepted` is the packet that `s` starts with, with an upper-layer header of
/// protocol `next_header` at `l4_offset`, named by the field at `nh_offset`.
pub open spec fn is_accepted6(
    s: Seq<u8>,
    next_header: Protocol,
    l4_offset: int,
    nh_offset: int,
    accepted: Ipv6Accepted,
) -> bool {
    let header = ipv6::header(s);
    &&& accepted.src_addr == header.src_addr
    &&& accepted.dst_addr == header.dst_addr
    &&& accepted.hop_limit == header.hop_limit
    &&& accepted.next_header == next_header
    &&& accepted.l4_offset == l4_offset
    &&& accepted.nh_offset == nh_offset
    &&& accepted.stack_wants == wants6(next_header)
    &&& accepted.packet@ == packet6(s)
}

/// Whether `action` is what is to be done about a packet that the stack processes. Behind
/// hop-by-hop options it goes on at the upper-layer header (RFC 8200 §4.3), as far as the
/// options allow.
pub open spec fn is_action6(s: Seq<u8>, source: ipv6::Address, action: Ipv6Action) -> bool {
    let header = ipv6::header(s);
    if header.next_header.0 != HOP_BY_HOP {
        action matches Ipv6Action::Accept(accepted) && is_accepted6(
            s,
            header.next_header,
            ipv6::HEADER_LEN as int,
            6,
            accepted,
        )
    } else {
        match hop_by_hop(packet6(s).skip(ipv6::HEADER_LEN as int)) {
            None => action is Drop,
            Some(HopByHopAction::Discard) => action is Drop,
            Some(HopByHopAction::DiscardSendError { pointer, allow_multicast_dst }) => {
                action matches Ipv6Action::Error(reply) && is_error_reply6(
                    packet6(s),
                    control6::PARAM_PROBLEM,
                    control6::UNRECOGNIZED_OPTION,
                    pointer,
                    allow_multicast_dst,
                    source,
                    reply,
                )
            },
            Some(HopByHopAction::Continue { next_header, ext_len }) => {
                action matches Ipv6Action::Accept(accepted) && is_accepted6(
                    s,
                    next_header,
                    ipv6::HEADER_LEN + ext_len,
                    ipv6::HEADER_LEN as int,
                    accepted,
                )
            },
        }
    }
}

impl IfaceState {
    /// Process an IPv6 packet. `ll_src` is the link-layer source address of the frame the
    /// packet arrived in, `None` on a medium without link-layer addresses. `source` is the
    /// address to send an error from if the destination of the packet cannot be.
    pub fn process_ipv6(
        &self,
        ll_src: Option<HardwareAddress>,
        buf: Vec<u8>,
        source: ipv6::Address,
    ) -> (ingress: Ipv6Ingress)
        ensures
            !accepted6(*self, buf@) ==> ingress.refresh is None && ingress.action is Drop,
            accepted6(*self, buf@) ==> is_action6(buf@, source, ingress.action) && ingress.refresh
                == if ipv6::header(buf@).dst_addr.spec_is_unicast() {
                ll_src
            } else {
                None
            },
    {
        let mut buf: Vec<u8> = buf;
        let ghost s = buf@;
        let packet = match ipv6::Packet::new_checked(buf.as_mut_slice()) {
            Ok(packet) => packet,
            Err(_) => return Ipv6Ingress { refresh: None, action: Ipv6Action::Drop },
        };
        if packet.version() != 6 {
            return Ipv6Ingress { refresh: None, action: Ipv6Action::Drop };
        }
        let src_addr = packet.src_addr();
        let dst_addr = packet.dst_addr();
        let hop_limit: u8 = packet.hop_limit();
        let next_header = packet.next_header();
        let payload_len: usize = packet.payload_len() as usize;
        if !src_addr.x_is_unicast() {
            // Discard packets with non-unicast source addresses.
            return Ipv6Ingress { refresh: None, action: Ipv6Action::Drop };
        }
        let dst = IpAddress::Ipv6(dst_addr);
        if !self.has_ip_addr(dst) && !self.has_multicast_group(dst) && !dst_addr.is_loopback() {
            return Ipv6Ingress { refresh: None, action: Ipv6Action::Drop };
        }
        let refresh = if dst_addr.x_is_unicast() {
            ll_src
        } else {
            None
        };
        // Strip any trailing padding added by the link layer.
        buf.truncate(ipv6::HEADER_LEN + payload_len);
        assert(buf@ =~= packet6(s));
        // Hop-by-hop options (RFC 8200 §4.3): walk the options, then continue at the
        // upper-layer header behind the extension header.
        let mut upper = next_header;
        let mut l4_offset: usize = ipv6::HEADER_LEN;
        // 6 is the offset of the fixed header's next header field.
        let mut nh_offset: u32 = 6;
        if next_header.0 == HOP_BY_HOP {
            let len: usize = buf.len();
            let options: &[u8] = &buf.as_slice()[ipv6::HEADER_LEN..len];
            assert(options@ =~= packet6(s).skip(ipv6::HEADER_LEN as int));
            match process_hop_by_hop(options) {
                Ok(HopByHopAction::Continue { next_header, ext_len }) => {
                    upper = next_header;
                    l4_offset = ipv6::HEADER_LEN + ext_len;
                    nh_offset = 40;
                },
                Ok(HopByHopAction::DiscardSendError { pointer, allow_multicast_dst }) => {
                    assert(ipv6::header(packet6(s)) == ipv6::header(s));
                    let reply = option_error(buf, pointer, allow_multicast_dst, source);
                    return Ipv6Ingress { refresh, action: Ipv6Action::Error(reply) };
                },
                _ => return Ipv6Ingress { refresh, action: Ipv6Action::Drop },
            }
        }
        let accepted = Ipv6Accepted {
            src_addr,
            dst_addr,
            hop_limit,
            next_header: upper,
            l4_offset,
            nh_offset,
            stack_wants: upper.0 == ICMPV6 || upper.0 == UDP || upper.0 == TCP,
            packet: buf,
        };
        Ipv6Ingress { refresh, action: Ipv6Action::Accept(accepted) }
    }
}

/// The error about a hop-by-hop option that is not recognized.
fn option_error(
    packet: Vec<u8>,
    pointer: u32,
    allow_multicast_dst: bool,
    source: ipv6::Address,
) -> (reply: Option<Reply>)
    requires
        packet@.len() >= 40,
    ensures
        is_error_reply6(
            packet@,
            control6::PARAM_PROBLEM,
            control6::UNRECOGNIZED_OPTION,
            pointer,
            allow_multicast_dst,
            source,
            reply,
        ),
{
    transmit_icmpv6_error(
        packet,
        control6::PARAM_PROBLEM,
        control6::UNRECOGNIZED_OPTION,
        pointer,
        allow_multicast_dst,
        source,
    )
}

/// Whether `ingress` is what is to be done about the payload of an IPv6 packet. The whole
/// packet is quoted in the error about a protocol that the stack does not process, and the error
/// points at the field that names the protocol.
pub open spec fn is_upper6(
    iface: IfaceState,
    ll_src: Option<HardwareAddress>,
    accepted: Ipv6Accepted,
    source: ipv6::Address,
    ingress: UpperIngress,
) -> bool {
    let payload = accepted.packet@.skip(accepted.l4_offset as int);
    if accepted.next_header.0 == ICMPV6 {
        ingress matches UpperIngress::Control(control) && is_control6(
            iface,
            ll_src,
            accepted.src_addr,
            accepted.dst_addr,
            accepted.hop_limit,
            source,
            payload,
            control,
        )
    } else if accepted.next_header.0 == UDP {
        ingress matches UpperIngress::Udp(datagram) && datagram@ == payload
    } else if accepted.next_header.0 == TCP {
        ingress matches UpperIngress::Tcp(segment) && segment@ == payload
    } else {
        ingress matches UpperIngress::Unsupported(reply) && is_error_reply6(
            accepted.packet@,
            control6::PARAM_PROBLEM,
            control6::UNRECOGNIZED_NXT_HDR,
            accepted.nh_offset,
            false,
            source,
            reply,
        )
    }
}

impl IfaceState {
    /// Hand the payload of an accepted IPv6 packet to its upper layer. A protocol that the
    /// stack does not process is answered with an ICMPv6 parameter problem, unrecognized next
    /// header (RFC 4443 §3.4).
    pub fn process_ipv6_upper(
        &self,
        ll_src: Option<HardwareAddress>,
        accepted: Ipv6Accepted,
        source: ipv6::Address,
    ) -> (ingress: UpperIngress)
        requires
            40 <= accepted.l4_offset <= accepted.packet@.len(),
        ensures
            is_upper6(*self, ll_src, accepted, source, ingress),
    {
        let next_header = accepted.next_header;
        if next_header.0 != ICMPV6 && next_header.0 != UDP && next_header.0 != TCP {
            return UpperIngress::Unsupported(
                transmit_icmpv6_error(
                    accepted.packet,
                    control6::PARAM_PROBLEM,
                    control6::UNRECOGNIZED_NXT_HDR,
                    accepted.nh_offset,
                    false,
                    source,
                ),
            );
        }
        let payload: Vec<u8> = tail(accepted.packet.as_slice(), accepted.l4_offset);
        if next_header.0 == ICMPV6 {
            UpperIngress::Control(
                self.process_icmpv6(
                    ll_src,
                    accepted.src_addr,
                    accepted.dst_addr,
                    accepted.hop_limit,
                    payload,
                    source,
                ),
            )
        } else if next_header.0 == UDP {
            UpperIngress::Udp(payload)
        } else {
            UpperIngress::Tcp(payload)
        }
    }
}

/// What is to be done about a TCP segment.
#[derive(Debug, Clone, Copy, PartialEq, Eq, Structural)]
pub enum TcpIngress {
    /// Nothing.
    Drop,
    /// The segment goes to a connected socket.
    Socket(TcpHandle),
    /// The segment is offered to the listeners, and answered with an RST if none takes it and
    /// `reset` says so: never reply to a TCP RST packet with another TCP RST packet.
    Listeners {
        /// Whether the segment may be answered with an RST.
        reset: bool,
    },
}

/// The first socket from slot `from` on that has the connection, and whose binding passes
/// packets on the interface.
pub open spec fn first_socket(
    slots: Seq<Option<TcpSocketState>>,
    from: int,
    iface: IfaceHandle,
    tuple: Tuple,
) -> Option<int>
    decreases slots.len() - from,
{
    if from < 0 || from >= slots.len() {
        None
    } else if occupied(slots, from) && slots[from]->0.binding.passes(iface) && slots[from]->0.tuple
        == Some(tuple) {
        Some(from)
    } else {
        first_socket(slots, from + 1, iface, tuple)
    }
}

/// Whether a TCP segment is valid: neither address is unspecified, it is well formed, and its
/// checksum is right, unless that is not the stack's to verify.
pub open spec fn segment_ok(
    iface: IfaceState,
    src_addr: IpAddress,
    dst_addr: IpAddress,
    s: Seq<u8>,
) -> bool {
    &&& !src_addr.spec_is_unspecified()
    &&& !dst_addr.spec_is_unspecified()
    &&& tcp::well_formed(s)
    &&& iface.checksum.tcp.rx || fold(tcp::segment_sum(src_addr, dst_addr, s)) == 0xffff
}

/// The connection that a segment from `src_addr` to `dst_addr` belongs to.
pub open spec fn tuple_of(src_addr: IpAddress, dst_addr: IpAddress, s: Seq<u8>) -> Tuple {
    Tuple {
        local: IpEndpoint { addr: dst_addr, port: tcp::header(s).dst_port as u16 },
        remote: IpEndpoint { addr: src_addr, port: tcp::header(s).src_port as u16 },
    }
}

impl Stack {
    /// The first socket that has the connection, and whose binding passes packets on the
    /// interface.
    fn connected_socket(&self, iface: IfaceHandle, tuple: Tuple) -> (index: Option<usize>)
        ensures
            match index {
                Some(i) => first_socket(self.sockets.tcp@, 0, iface, tuple) == Some(i as int),
                None => first_socket(self.sockets.tcp@, 0, iface, tuple) is None,
            },
    {
        let count: usize = self.sockets.tcp.slot_count();
        let mut index: usize = 0;
        while index < count
            invariant
                index <= count,
                count == self.sockets.tcp@.len(),
                first_socket(self.sockets.tcp@, 0, iface, tuple) == first_socket(
                    self.sockets.tcp@,
                    index as int,
                    iface,
                    tuple,
                ),
            decreases count - index,
        {
            if self.sockets.tcp.contains(index) {
                let socket = self.sockets.tcp.get(index);
                if socket.binding.matches(iface) && socket.tuple == Some(tuple) {
                    return Some(index);
                }
            }
            index = index + 1;
        }
        None
    }

    /// Process an ingress TCP segment: validate it and find the matching socket. Connected
    /// sockets match first, by full 4-tuple, then the listeners, which record SYNs to a
    /// listened endpoint in their accept queues and transmit nothing. Unmatched segments are
    /// answered with an RST.
    ///
    /// Per RFC 1122 §3.2.1.3, the unspecified address must never appear as a source or
    /// destination in any IP datagram. Such segments are dropped early to avoid creating
    /// sockets with unspecified peers.
    ///
    /// `parsed` is what parsing the control flags and the options of the segment gave, `None` if
    /// they are malformed, in which case the segment is dropped as well.
    pub fn process_tcp(
        &self,
        iface: IfaceHandle,
        src_addr: IpAddress,
        dst_addr: IpAddress,
        buf: Vec<u8>,
        parsed: Option<tcp::Control>,
    ) -> (ingress: TcpIngress)
        requires
            self.live(iface),
            src_addr.spec_version() == dst_addr.spec_version(),
        ensures
            !segment_ok(self.spec_iface(iface), src_addr, dst_addr, buf@) ==> ingress is Drop,
            parsed is None ==> ingress is Drop,
            segment_ok(self.spec_iface(iface), src_addr, dst_addr, buf@) && parsed is Some ==> (
            match first_socket(
                self.sockets.tcp@,
                0,
                iface,
                tuple_of(src_addr, dst_addr, buf@),
            ) {
                Some(i) => ingress matches TcpIngress::Socket(handle) && handle.index == i,
                None => ingress == (TcpIngress::Listeners {
                    reset: parsed != Some(tcp::Control::Rst),
                }),
            }),
            ingress matches TcpIngress::Socket(handle) ==> {
                &&& occupied(self.sockets.tcp@, handle.index as int)
                &&& self.sockets.tcp@[handle.index as int]->0.binding.passes(iface)
                &&& self.sockets.tcp@[handle.index as int]->0.tuple matches Some(own)
                &&& own.local.addr == dst_addr
                &&& own.local.port == be16(buf@, 2)
                &&& own.remote.addr == src_addr
                &&& own.remote.port == be16(buf@, 0)
                &&& forall|j: int|
                    0 <= j < handle.index && #[trigger] occupied(self.sockets.tcp@, j)
                        && self.sockets.tcp@[j]->0.binding.passes(iface)
                        ==> self.sockets.tcp@[j]->0.tuple != Some(own)
            },
            ingress is Listeners ==> forall|j: int| #[trigger]
                occupied(self.sockets.tcp@, j) && self.sockets.tcp@[j]->0.binding.passes(iface) ==> (
                self.sockets.tcp@[j]->0.tuple matches Some(own) ==> !(own.local.addr == dst_addr
                    && own.local.port == be16(buf@, 2) && own.remote.addr == src_addr
                    && own.remote.port == be16(buf@, 0))),
    {
        if src_addr.is_unspecified() || dst_addr.is_unspecified() {
            return TcpIngress::Drop;
        }
        let mut buf: Vec<u8> = buf;
        let packet = match tcp::Packet::new_checked(buf.as_mut_slice()) {
            Ok(packet) => packet,
            Err(_) => return TcpIngress::Drop,
        };
        if !self.ifaces.get(iface.index).checksum.tcp.rx && !packet.verify_checksum(
            &src_addr,
            &dst_addr,
        ) {
            return TcpIngress::Drop;
        }
        let control = match parsed {
            Some(control) => control,
            None => return TcpIngress::Drop,
        };
        let tuple = Tuple {
            local: IpEndpoint { addr: dst_addr, port: packet.dst_port() },
            remote: IpEndpoint { addr: src_addr, port: packet.src_port() },
        };
        proof {
            law_connected_socket(self.sockets.tcp@, 0, iface, tuple);
            assert(tuple == tuple_of(src_addr, dst_addr, buf@));
            assert forall|own: Tuple|
                own.local.addr == dst_addr && own.local.port == be16(buf@, 2) && own.remote.addr
                    == src_addr && own.remote.port == be16(buf@, 0) implies own == tuple by {
                assert(own.local == tuple.local && own.remote == tuple.remote);
            }
        }
        match self.connected_socket(iface, tuple) {
            Some(index) => TcpIngress::Socket(TcpHandle { index }),
            // Never reply to a TCP RST packet with another TCP RST packet.
            None => TcpIngress::Listeners { reset: control != tcp::Control::Rst },
        }
    }
}

/// The search for the socket of a connection finds the first socket that has exactly this
/// connection and whose binding allows the interface, and finds none only if there is none.
pub proof fn law_connected_socket(
    slots: Seq<Option<TcpSocketState>>,
    from: int,
    iface: IfaceHandle,
    tuple: Tuple,
)
    requires
        0 <= from,
    ensures
        match first_socket(slots, from, iface, tuple) {
            Some(i) => {
                &&& from <= i
                &&& occupied(slots, i)
                &&& slots[i]->0.binding.passes(iface)
                &&& slots[i]->0.tuple matches Some(own)
                &&& own.local == tuple.local
                &&& own.remote == tuple.remote
                &&& forall|j: int|
                    from <= j < i && #[trigger] occupied(slots, j) && slots[j]->0.binding.passes(
                        iface,
                    ) ==> slots[j]->0.tuple != Some(tuple)
            },
            None => forall|j: int|
                from <= j && #[trigger] occupied(slots, j) && slots[j]->0.binding.passes(iface)
                    ==> slots[j]->0.tuple != Some(tuple),
        },
    decreases slots.len() - from,
{
    if from < slots.len() {
        law_connected_socket(slots, from + 1, iface, tuple);
    }
}

/// The connection of a segment: the local end is where it was sent to, the remote end where it
/// comes from. Segments of different connections are told apart by any of the four parts.
pub proof fn law_tuple(
    src_addr: IpAddress,
    dst_addr: IpAddress,
    s: Seq<u8>,
    other_src: IpAddress,
    other_dst: IpAddress,
    other: Seq<u8>,
)
    ensures
        tuple_of(src_addr, dst_addr, s).local.addr == dst_addr,
        tuple_of(src_addr, dst_addr, s).local.port == be16(s, 2),
        tuple_of(src_addr, dst_addr, s).remote.addr == src_addr,
        tuple_of(src_addr, dst_addr, s).remote.port == be16(s, 0),
        tuple_of(src_addr, dst_addr, s) == tuple_of(other_src, other_dst, other) ==> src_addr
            == other_src && dst_addr == other_dst && be16(s, 0) == be16(other, 0) && be16(s, 2)
            == be16(other, 2),
{
}

/// A segment is valid if neither address is unspecified, it holds its header, which is at least
/// 20 octets long, and the checksum over its pseudo-header and itself is right. A checksum that
/// the device verified does not matter.
pub proof fn law_segment_ok(
    iface: IfaceState,
    src_addr: IpAddress,
    dst_addr: IpAddress,
    s: Seq<u8>,
)
    ensures
        segment_ok(iface, src_addr, dst_addr, s) ==> {
            &&& 20 <= s.len()
            &&& 20 <= s[12] / 16 * 4 <= s.len()
            &&& !(src_addr matches IpAddress::Ipv4(a) && a.bits == 0)
            &&& !(dst_addr matches IpAddress::Ipv4(a) && a.bits == 0)
            &&& !(src_addr matches IpAddress::Ipv6(a) && a.bits == 0)
            &&& !(dst_addr matches IpAddress::Ipv6(a) && a.bits == 0)
        },
        s.len() >= 20 && 20 <= s[12] / 16 * 4 <= s.len() && !src_addr.spec_is_unspecified()
            && !dst_addr.spec_is_unspecified() ==> {
            &&& iface.checksum.tcp.rx ==> segment_ok(iface, src_addr, dst_addr, s)
            &&& !iface.checksum.tcp.rx ==> (segment_ok(iface, src_addr, dst_addr, s) <==> fold(
                word_sum(src_addr.octets_of()) + word_sum(dst_addr.octets_of()) + 6 + word_sum(
                    octets32(s.len() as int % 0x1_0000_0000),
                ) + word_sum(s),
            ) == 0xffff)
        },
{
    tcp::law_header(s);
}

/// A frame is for the interface if it is sent to a group address, of which the broadcast address
/// is one, or to the very address of the interface. A frame to another host is not.
pub proof fn law_frame_accepted(iface: IfaceState, s: Seq<u8>)
    requires
        iface.hardware_addr is Ethernet,
    ensures
        s.len() < 14 ==> !frame_accepted(iface, s),
        s.len() >= 14 && s[0] % 2 == 1 ==> frame_accepted(iface, s),
        s.len() >= 14 && s[0] % 2 == 0 ==> (frame_accepted(iface, s) <==> forall|i: int|
            0 <= i < 6 ==> s[i] == #[trigger] iface.hardware_addr@[i]),
{
    if s.len() >= 14 {
        let own = iface.hardware_addr@;
        assert(s.take(6)[0] == s[0]);
        if frame_accepted(iface, s) && s[0] % 2 == 0 {
            assert(s.take(6) == own);
            assert forall|i: int| 0 <= i < 6 implies s[i] == #[trigger] own[i] by {
                assert(s.take(6)[i] == s[i]);
            }
        }
        if forall|i: int| 0 <= i < 6 ==> s[i] == #[trigger] own[i] {
            assert(s.take(6) =~= own);
        }
    }
}

/// The upper layers of Ethernet frames, by the numbers of their types.
pub proof fn law_ethernet_upper(ethertype: EtherType)
    ensures
        ethernet_upper(ethertype) is Ipv4 <==> ethertype.0 == 0x0800,
        ethernet_upper(ethertype) is Arp <==> ethertype.0 == 0x0806,
        ethernet_upper(ethertype) is Ipv6 <==> ethertype.0 == 0x86dd,
{
}

/// What becomes of IPv4 packets, said of their octets. A packet that is cut short, of another
/// version or with a wrong header checksum is dropped. A packet with more fragments to follow it
/// or a fragment offset is a fragment, and goes to reassembly; any other packet is processed as a
/// whole. It is accepted if it comes from a unicast address, or from the unspecified one, and is
/// for the interface, and only then.
pub proof fn law_ipv4_ingress(
    iface: IfaceState,
    roles: DhcpRoles,
    eth_src: Option<EthernetAddress>,
    s: Seq<u8>,
    ingress: Ipv4Ingress,
)
    requires
        !header_ok4(iface, s) ==> ingress is Drop,
        header_ok4(iface, s) && is_fragment(s) ==> (ingress matches Ipv4Ingress::Reassemble(
            fragment,
        ) && fragment@ == s),
        header_ok4(iface, s) && !is_fragment(s) ==> is_whole4(iface, roles, eth_src, s, ingress),
    ensures
        ({
            let hlen = s[0] as int % 16 * 4;
            let tlen = be16(s, 2);
            let valid = s.len() >= 20 && s[0] / 16 == 4 && 20 <= hlen <= tlen <= s.len() && (
            iface.checksum.ipv4.rx || fold(word_sum(s.take(hlen))) == 0xffff);
            let fragment = be16(s, 6) / 0x2000 % 2 == 1 || be16(s, 6) % 0x2000 != 0;
            let src = ipv4::Address { bits: be32(s, 12) as u32 };
            let dst = ipv4::Address { bits: be32(s, 16) as u32 };
            let ours = iface.spec_has_ip_addr(IpAddress::Ipv4(dst))
                || iface.spec_has_multicast_group(IpAddress::Ipv4(dst))
                || iface.spec_is_broadcast_v4(dst);
            &&& !valid ==> ingress is Drop
            &&& ingress is Reassemble <==> valid && fragment
            &&& ingress matches Ipv4Ingress::Reassemble(f) ==> f@ == s
            &&& ingress matches Ipv4Ingress::Accept(a) ==> {
                &&& !fragment
                &&& ours
                &&& src.bits == 0 || iface.spec_is_unicast_v4(src)
                &&& a.src_addr == src
                &&& a.dst_addr == dst
                &&& a.next_header.0 == s[9]
                &&& a.header_len == hlen
                &&& a.packet@ == s.take(tlen)
                &&& a.stack_wants <==> s[9] == 1 || s[9] == 2 || s[9] == 6 || s[9] == 17
                &&& iface.spec_is_unicast_v4(dst) ==> a.refresh == eth_src
                &&& !iface.spec_is_unicast_v4(dst) ==> a.refresh is None
            }
            &&& valid && !fragment && ours && (src.bits == 0 || iface.spec_is_unicast_v4(src)) && (
            s[9] != 17 || !roles.client && !roles.server) ==> ingress is Accept
        }),
{
}

/// Which packets the DHCP client and the DHCP server of an interface get. The client gets
/// messages from a server to a client, whoever they are addressed to, and the server gets
/// messages to a server that are for the interface. Nobody gets one with a wrong checksum, and
/// a packet that is no such message is none of theirs.
pub proof fn law_dhcp_ingress(
    iface: IfaceState,
    roles: DhcpRoles,
    eth_src: Option<EthernetAddress>,
    s: Seq<u8>,
    ingress: Ipv4Ingress,
)
    requires
        ipv4::well_formed(s),
        is_whole4(iface, roles, eth_src, s, ingress),
    ensures
        ({
            let at = s[0] as int % 16 * 4;
            let room = be16(s, 2) - at;
            let datagram = s[9] == 17 && room >= 8 && 8 <= be16(s, at + 4) <= room;
            let src = ipv4::Address { bits: be32(s, 12) as u32 };
            let dst = ipv4::Address { bits: be32(s, 16) as u32 };
            let ours = iface.spec_is_broadcast_v4(dst) || iface.spec_has_ip_addr(
                IpAddress::Ipv4(dst),
            );
            let to_client = roles.client && datagram && be16(s, at) == 67 && be16(s, at + 2) == 68;
            let to_server = roles.server && datagram && ours && be16(s, at + 2) == 67;
            &&& ingress is DhcpClient ==> to_client
            &&& ingress is DhcpServer ==> to_server && !to_client
            &&& to_client || to_server ==> ingress is DhcpClient || ingress is DhcpServer
                || ingress is Drop
            &&& to_client && (iface.checksum.udp.rx || be16(s, at + 6) == 0)
                ==> ingress is DhcpClient
            &&& to_server && !to_client && (iface.checksum.udp.rx || be16(s, at + 6) == 0)
                ==> ingress is DhcpServer
            &&& udp::checksum_ok(
                s.subrange(at, be16(s, 2)),
                IpAddress::Ipv4(src),
                IpAddress::Ipv4(dst),
            ) ==> (to_client ==> ingress is DhcpClient) && (to_server && !to_client
                ==> ingress is DhcpServer)
            &&& !to_client && !to_server ==> (ingress is Accept <==> (src.bits == 0
                || iface.spec_is_unicast_v4(src)) && (ours || iface.spec_has_multicast_group(
                IpAddress::Ipv4(dst),
            )))
            &&& (to_client || to_server) && !iface.checksum.udp.rx && !udp::checksum_ok(
                s.subrange(at, be16(s, 2)),
                IpAddress::Ipv4(src),
                IpAddress::Ipv4(dst),
            ) ==> ingress is Drop
            &&& ingress matches Ipv4Ingress::DhcpClient { src_addr, payload } ==> src_addr == src
                && payload@ == s.subrange(at + 8, at + be16(s, at + 4))
            &&& ingress matches Ipv4Ingress::DhcpServer { src_addr, payload } ==> src_addr == src
                && payload@ == s.subrange(at + 8, at + be16(s, at + 4))
        }),
{
    let at = s[0] as int % 16 * 4;
    let p = ipv4::payload(s);
    assert(p =~= s.subrange(at, be16(s, 2)));
    if p.len() >= 8 {
        assert(p[0] == s[at] && p[1] == s[at + 1] && p[2] == s[at + 2] && p[3] == s[at + 3]);
        assert(p[4] == s[at + 4] && p[5] == s[at + 5] && p[6] == s[at + 6] && p[7] == s[at + 7]);
        if 8 <= be16(p, 4) <= p.len() {
            assert(udp::payload(p) =~= s.subrange(at + 8, at + be16(s, at + 4)));
        }
    }
}

/// Which upper layer gets the payload of an accepted IPv4 packet, by the number of its protocol.
/// A packet of any other protocol is answered with a protocol unreachable error that quotes it,
/// if it was sent from and to unicast addresses.
pub proof fn law_ipv4_upper(iface: IfaceState, accepted: Ipv4Accepted, ingress: UpperIngress)
    requires
        is_upper4(iface, accepted, ingress),
    ensures
        ({
            let payload = accepted.packet@.skip(accepted.header_len as int);
            let src = ipv4::Address { bits: be32(accepted.packet@, 12) as u32 };
            let dst = ipv4::Address { bits: be32(accepted.packet@, 16) as u32 };
            let protocol = accepted.next_header.0;
            &&& ingress is Control <==> protocol == 1
            &&& ingress is Igmp <==> protocol == 2
            &&& ingress is Tcp <==> protocol == 6
            &&& ingress is Udp <==> protocol == 17
            &&& ingress matches UpperIngress::Igmp(message) ==> message@ == payload
            &&& ingress matches UpperIngress::Tcp(segment) ==> segment@ == payload
            &&& ingress matches UpperIngress::Udp(datagram) ==> datagram@ == payload
            &&& ingress matches UpperIngress::Control(control) ==> is_control4(
                iface,
                accepted.src_addr,
                accepted.dst_addr,
                payload,
                control,
            )
            &&& ingress matches UpperIngress::Unsupported(reply) ==> {
                &&& reply is Some <==> iface.spec_is_unicast_v4(src) && iface.spec_is_unicast_v4(dst)
                &&& reply matches Some(r) ==> {
                    &&& r matches Reply::Error4 { src_addr, dst_addr, msg_type, msg_code, orig }
                    &&& src_addr == dst
                    &&& dst_addr == src
                    &&& msg_type == 3
                    &&& msg_code == 2
                    &&& orig@ == accepted.packet@
                }
            }
        }),
{
}

/// What becomes of IPv6 packets, said of their octets. A packet that is cut short, of another
/// version, from an address that is not unicast, or not for the interface is dropped. Any other
/// packet is accepted, without its padding, unless its hop-by-hop options say otherwise.
pub proof fn law_ipv6_ingress(
    iface: IfaceState,
    ll_src: Option<HardwareAddress>,
    s: Seq<u8>,
    source: ipv6::Address,
    ingress: Ipv6Ingress,
)
    requires
        !accepted6(iface, s) ==> ingress.refresh is None && ingress.action is Drop,
        accepted6(iface, s) ==> is_action6(s, source, ingress.action) && ingress.refresh
            == if ipv6::header(s).dst_addr.spec_is_unicast() {
            ll_src
        } else {
            None
        },
    ensures
        ({
            let src = ipv6::Address { bits: be128(s, 8) as u128 };
            let dst = ipv6::Address { bits: be128(s, 24) as u128 };
            let ours = iface.spec_has_ip_addr(IpAddress::Ipv6(dst))
                || iface.spec_has_multicast_group(IpAddress::Ipv6(dst)) || dst.bits == 1;
            let valid = s.len() >= 40 && s[0] / 16 == 6 && 40 + be16(s, 4) <= s.len()
                && src.spec_is_unicast() && ours;
            let packet = s.take(40 + be16(s, 4));
            &&& !valid ==> ingress.action is Drop && ingress.refresh is None
            &&& valid && dst.spec_is_unicast() ==> ingress.refresh == ll_src
            &&& valid && !dst.spec_is_unicast() ==> ingress.refresh is None
            &&& valid && s[6] != 0 ==> {
                &&& ingress.action matches Ipv6Action::Accept(a)
                &&& a.next_header.0 == s[6]
                &&& a.l4_offset == 40
                &&& a.nh_offset == 6
            }
            &&& valid && s[6] == 0 ==> match hop_by_hop(packet.skip(40)) {
                Some(HopByHopAction::Continue { next_header, ext_len }) => {
                    &&& ingress.action matches Ipv6Action::Accept(a)
                    &&& a.next_header == next_header
                    &&& a.l4_offset == 40 + ext_len
                    &&& a.nh_offset == 40
                },
                Some(HopByHopAction::DiscardSendError { pointer, allow_multicast_dst }) => {
                    &&& ingress.action matches Ipv6Action::Error(reply)
                    &&& !dst.spec_is_multicast() || allow_multicast_dst <==> reply is Some
                    &&& reply matches Some(r) ==> {
                        &&& r matches Reply::Error6 {
                            src_addr,
                            dst_addr,
                            msg_type,
                            msg_code,
                            pointer: at,
                            orig,
                        }
                        &&& dst_addr == src
                        &&& dst.spec_is_unicast() ==> src_addr == dst
                        &&& !dst.spec_is_unicast() ==> src_addr == source
                        &&& msg_type == 4
                        &&& msg_code == 2
                        &&& at == pointer
                        &&& orig@ == packet
                    }
                },
                _ => ingress.action is Drop,
            }
            &&& ingress.action matches Ipv6Action::Accept(a) ==> {
                &&& a.src_addr == src
                &&& a.dst_addr == dst
                &&& a.hop_limit == s[7]
                &&& a.packet@ == packet
                &&& a.stack_wants <==> a.next_header.0 == 58 || a.next_header.0 == 17
                    || a.next_header.0 == 6
            }
        }),
{
    if accepted6(iface, s) {
        let p = packet6(s);
        assert(p =~= s.take(40 + be16(s, 4)));
        assert(ipv6::header(p) == ipv6::header(s)) by {
            assert(forall|k: int| 0 <= k < 40 ==> #[trigger] p[k] == s[k]);
        }
    }
}

/// Which upper layer gets the payload of an accepted IPv6 packet, by the number of its protocol.
/// A packet of any other protocol is answered with a parameter problem that points at the field
/// that names the protocol and quotes the packet, if it came from a unicast address and was not
/// sent to a group.
pub proof fn law_ipv6_upper(
    iface: IfaceState,
    ll_src: Option<HardwareAddress>,
    accepted: Ipv6Accepted,
    source: ipv6::Address,
    ingress: UpperIngress,
)
    requires
        is_upper6(iface, ll_src, accepted, source, ingress),
    ensures
        ({
            let payload = accepted.packet@.skip(accepted.l4_offset as int);
            let src = ipv6::Address { bits: be128(accepted.packet@, 8) as u128 };
            let dst = ipv6::Address { bits: be128(accepted.packet@, 24) as u128 };
            let protocol = accepted.next_header.0;
            &&& ingress is Control <==> protocol == 58
            &&& ingress is Tcp <==> protocol == 6
            &&& ingress is Udp <==> protocol == 17
            &&& !(ingress is Igmp)
            &&& ingress matches UpperIngress::Tcp(segment) ==> segment@ == payload
            &&& ingress matches UpperIngress::Udp(datagram) ==> datagram@ == payload
            &&& ingress matches UpperIngress::Control(control) ==> is_control6(
                iface,
                ll_src,
                accepted.src_addr,
                accepted.dst_addr,
                accepted.hop_limit,
                source,
                payload,
                control,
            )
            &&& ingress matches UpperIngress::Unsupported(reply) ==> {
                &&& reply is Some <==> src.spec_is_unicast() && !dst.spec_is_multicast()
                &&& reply matches Some(r) ==> {
                    &&& r matches Reply::Error6 {
                        src_addr,
                        dst_addr,
                        msg_type,
                        msg_code,
                        pointer,
                        orig,
                    }
                    &&& dst_addr == src
                    &&& dst.spec_is_unicast() ==> src_addr == dst
                    &&& !dst.spec_is_unicast() ==> src_addr == source
                    &&& msg_type == 4
                    &&& msg_code == 1
                    &&& pointer == accepted.nh_offset
                    &&& orig@ == accepted.packet@
                }
            }
        }),
{
}

/// A packet whose protocol the stack does not process is never handed to an upper layer, and one
/// whose protocol it does process is never answered with an error: raw sockets get a copy of
/// exactly the packets that an upper layer gets.
pub proof fn law_wanted_by_upper_layer(
    iface: IfaceState,
    accepted4: Ipv4Accepted,
    ingress4: UpperIngress,
    ll_src: Option<HardwareAddress>,
    accepted6: Ipv6Accepted,
    source: ipv6::Address,
    ingress6: UpperIngress,
)
    requires
        is_upper4(iface, accepted4, ingress4),
        is_upper6(iface, ll_src, accepted6, source, ingress6),
    ensures
        wants4(accepted4.next_header) <==> !(ingress4 is Unsupported),
        wants6(accepted6.next_header) <==> !(ingress6 is Unsupported),
{
}

/// The error about an IPv4 packet whose next hop did not answer gets through ingress on the
/// interface that it comes from: it has the right checksums, it is no fragment, and it reaches
/// the ICMP layer as an error that quotes the packet.
pub proof fn law_failure_delivered4(
    iface: IfaceState,
    orig: Seq<u8>,
    source: ipv4::Address,
    ingress: ControlIngress,
)
    requires
        orig.len() >= 20,
        is_control4(
            iface,
            source,
            ipv4::header(orig).src_addr,
            ipv4::payload(failure4(orig, source)),
            ingress,
        ),
    ensures
        header_ok4(iface, failure4(orig, source)),
        !is_fragment(failure4(orig, source)),
        ipv4::header(failure4(orig, source)).next_header.0 == ICMP,
        ipv4::header(failure4(orig, source)).src_addr == source,
        ipv4::header(failure4(orig, source)).dst_addr == ipv4::header(orig).src_addr,
        ingress matches ControlIngress::Error { msg_type, msg_code, quote: q } && msg_type
            == control4::DST_UNREACHABLE && msg_code == control4::HOST_UNREACHABLE && q@ == quote(
            orig,
            ICMPV4_QUOTE_LEN as int,
        ),
{
    lemma_failure4_packet(iface, orig, source);
    lemma_failure4_message(orig);
}

/// The message of the error about an IPv4 packet whose next hop did not answer.
proof fn lemma_failure4_message(orig: Seq<u8>)
    ensures
        ({
            let message = error4(
                orig,
                control4::DST_UNREACHABLE,
                control4::HOST_UNREACHABLE,
                false,
            );
            &&& 8 <= message.len() <= 556
            &&& message[0] == control4::DST_UNREACHABLE
            &&& message[1] == control4::HOST_UNREACHABLE
            &&& message.skip(8) == quote(orig, ICMPV4_QUOTE_LEN as int)
            &&& control4::checksum_ok(message)
        }),
{
    law_error_fits(
        orig,
        ipv6::Address { bits: 0 },
        ipv6::Address { bits: 0 },
        control4::DST_UNREACHABLE,
        control4::HOST_UNREACHABLE,
        0,
        false,
    );
    control4::law_filled_checksum(
        seq![control4::DST_UNREACHABLE, control4::HOST_UNREACHABLE, 0, 0, 0, 0, 0, 0] + quote(
            orig,
            ICMPV4_QUOTE_LEN as int,
        ),
    );
}

/// The packet of the error about an IPv4 packet whose next hop did not answer.
proof fn lemma_failure4_packet(iface: IfaceState, orig: Seq<u8>, source: ipv4::Address)
    ensures
        header_ok4(iface, failure4(orig, source)),
        !is_fragment(failure4(orig, source)),
        ipv4::header(failure4(orig, source)).next_header.0 == ICMP,
        ipv4::header(failure4(orig, source)).src_addr == source,
        ipv4::header(failure4(orig, source)).dst_addr == ipv4::header(orig).src_addr,
        ipv4::payload(failure4(orig, source)) == error4(
            orig,
            control4::DST_UNREACHABLE,
            control4::HOST_UNREACHABLE,
            false,
        ),
{
    lemma_failure4_message(orig);
    law_ipv4_packet(
        source,
        ipv4::header(orig).src_addr,
        Protocol(ICMP),
        64,
        false,
        error4(orig, control4::DST_UNREACHABLE, control4::HOST_UNREACHABLE, false),
    );
}

/// The error about an IPv6 packet whose next hop did not answer reaches the ICMPv6 layer as an
/// error that quotes the packet.
pub proof fn law_failure_delivered6(
    iface: IfaceState,
    ll_src: Option<HardwareAddress>,
    orig: Seq<u8>,
    source: ipv6::Address,
    ingress: ControlIngress,
)
    requires
        orig.len() >= 40,
        is_control6(
            iface,
            ll_src,
            source,
            ipv6::header(orig).src_addr,
            64,
            source,
            ipv6::payload(failure6(orig, source)),
            ingress,
        ),
    ensures
        ipv6::well_formed(failure6(orig, source)),
        ipv6::header(failure6(orig, source)).version == 6,
        ipv6::header(failure6(orig, source)).next_header.0 == ICMPV6,
        ipv6::header(failure6(orig, source)).src_addr == source,
        ipv6::header(failure6(orig, source)).dst_addr == ipv6::header(orig).src_addr,
        ingress matches ControlIngress::Error { msg_type, msg_code, quote: q } && msg_type
            == control6::DST_UNREACHABLE && msg_code == control6::ADDR_UNREACHABLE && q@ == quote(
            orig,
            ICMPV6_QUOTE_LEN as int,
        ),
{
    lemma_failure6_packet(orig, source);
    lemma_failure6_message(orig, source, ipv6::header(orig).src_addr);
}

/// The message of the error about an IPv6 packet whose next hop did not answer.
proof fn lemma_failure6_message(orig: Seq<u8>, src_addr: ipv6::Address, dst_addr: ipv6::Address)
    ensures
        ({
            let message = error6(
                orig,
                src_addr,
                dst_addr,
                control6::DST_UNREACHABLE,
                control6::ADDR_UNREACHABLE,
                0,
                false,
            );
            &&& 8 <= message.len() <= 1240
            &&& message[0] == control6::DST_UNREACHABLE
            &&& message[1] == control6::ADDR_UNREACHABLE
            &&& message.skip(8) == quote(orig, ICMPV6_QUOTE_LEN as int)
            &&& control6::checksum_ok(message, src_addr, dst_addr)
        }),
{
    law_error_fits(
        orig,
        src_addr,
        dst_addr,
        control6::DST_UNREACHABLE,
        control6::ADDR_UNREACHABLE,
        0,
        false,
    );
    control6::law_filled_checksum(
        seq![control6::DST_UNREACHABLE, control6::ADDR_UNREACHABLE, 0, 0] + octets32(0) + quote(
            orig,
            ICMPV6_QUOTE_LEN as int,
        ),
        src_addr,
        dst_addr,
    );
}

/// The packet of the error about an IPv6 packet whose next hop did not answer.
proof fn lemma_failure6_packet(orig: Seq<u8>, source: ipv6::Address)
    ensures
        ipv6::well_formed(failure6(orig, source)),
        ipv6::header(failure6(orig, source)).version == 6,
        ipv6::header(failure6(orig, source)).next_header.0 == ICMPV6,
        ipv6::header(failure6(orig, source)).src_addr == source,
        ipv6::header(failure6(orig, source)).dst_addr == ipv6::header(orig).src_addr,
        ipv6::payload(failure6(orig, source)) == error6(
            orig,
            source,
            ipv6::header(orig).src_addr,
            control6::DST_UNREACHABLE,
            control6::ADDR_UNREACHABLE,
            0,
            false,
        ),
{
    let dst_addr = ipv6::header(orig).src_addr;
    lemma_failure6_message(orig, source, dst_addr);
    law_ipv6_packet(
        source,
        dst_addr,
        Protocol(ICMPV6),
        64,
        error6(
            orig,
            source,
            dst_addr,
            control6::DST_UNREACHABLE,
            control6::ADDR_UNREACHABLE,
            0,
            false,
        ),
    );
}

} // verus!

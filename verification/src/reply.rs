//! The replies that the stack itself makes to ingress packets: echo replies, ICMP errors, and
//! immediate TCP replies.

use vstd::prelude::*;

use crate::driver::ChecksumCapabilities;
use crate::egress::{
    build_icmpv4_error, build_icmpv6_error, echo_reply4, echo_reply6, error4, error6,
};
use crate::endian::{be128, be32, octets32, put16};
use crate::iface::{IfaceHandle, IfaceState};
use crate::link::{ip_packet, law_ip_packet};
use crate::stack::{reply_route_of, EgressRoute, Stack, TableRoute};
use crate::wire::checksum::{fold, word_sum};
use crate::wire::ip::{Address as IpAddress, Protocol, ICMP, ICMPV6, TCP};
use crate::wire::{control4, control6, ipv4, ipv6, tcp};

verus! {

/// A reply to an ingress packet, before it is routed: its checksums are the egress interface's
/// to compute, and that interface is not necessarily the arrival one.
#[allow(inconsistent_fields)]
pub enum Reply {
    /// The reply to an ICMPv4 echo request.
    Echo4 {
        /// The source of the reply.
        src_addr: ipv4::Address,
        /// The destination of the reply.
        dst_addr: ipv4::Address,
        /// The request.
        request: Vec<u8>,
    },
    /// The reply to an ICMPv6 echo request.
    Echo6 {
        /// The source of the reply.
        src_addr: ipv6::Address,
        /// The destination of the reply.
        dst_addr: ipv6::Address,
        /// The request.
        request: Vec<u8>,
    },
    /// An ICMPv4 error message.
    Error4 {
        /// The source of the error.
        src_addr: ipv4::Address,
        /// The destination of the error.
        dst_addr: ipv4::Address,
        /// The type of the message.
        msg_type: u8,
        /// The code of the message.
        msg_code: u8,
        /// The packet that the error is about.
        orig: Vec<u8>,
    },
    /// An ICMPv6 error message.
    Error6 {
        /// The source of the error.
        src_addr: ipv6::Address,
        /// The destination of the error.
        dst_addr: ipv6::Address,
        /// The type of the message.
        msg_type: u8,
        /// The code of the message.
        msg_code: u8,
        /// The offset that a parameter problem points at.
        pointer: u32,
        /// The packet that the error is about.
        orig: Vec<u8>,
    },
}

impl Reply {
    /// The source of the reply.
    pub open spec fn source(self) -> IpAddress {
        match self {
            Reply::Echo4 { src_addr, .. } => IpAddress::Ipv4(src_addr),
            Reply::Echo6 { src_addr, .. } => IpAddress::Ipv6(src_addr),
            Reply::Error4 { src_addr, .. } => IpAddress::Ipv4(src_addr),
            Reply::Error6 { src_addr, .. } => IpAddress::Ipv6(src_addr),
        }
    }

    /// The destination of the reply.
    pub open spec fn destination(self) -> IpAddress {
        match self {
            Reply::Echo4 { dst_addr, .. } => IpAddress::Ipv4(dst_addr),
            Reply::Echo6 { dst_addr, .. } => IpAddress::Ipv6(dst_addr),
            Reply::Error4 { dst_addr, .. } => IpAddress::Ipv4(dst_addr),
            Reply::Error6 { dst_addr, .. } => IpAddress::Ipv6(dst_addr),
        }
    }

    /// The protocol of the reply.
    pub open spec fn spec_protocol(self) -> Protocol {
        match self.destination() {
            IpAddress::Ipv4(_) => Protocol(ICMP),
            IpAddress::Ipv6(_) => Protocol(ICMPV6),
        }
    }

    /// Whether a request to reply to is there.
    pub open spec fn wf(self) -> bool {
        match self {
            Reply::Echo4 { request, .. } => request@.len() >= 8,
            Reply::Echo6 { request, .. } => request@.len() >= 8,
            _ => true,
        }
    }

    /// The message of the reply, as it leaves an interface with the given capabilities.
    pub open spec fn spec_message(self, caps: ChecksumCapabilities) -> Seq<u8> {
        match self {
            Reply::Echo4 { request, .. } => control4::with_checksum(
                request@.update(0, control4::ECHO_REPLY),
                caps.icmpv4.tx,
            ),
            Reply::Echo6 { src_addr, dst_addr, request } => control6::with_checksum(
                request@.update(0, control6::ECHO_REPLY),
                src_addr,
                dst_addr,
                caps.icmpv6.tx,
            ),
            Reply::Error4 { msg_type, msg_code, orig, .. } => error4(
                orig@,
                msg_type,
                msg_code,
                caps.icmpv4.tx,
            ),
            Reply::Error6 { src_addr, dst_addr, msg_type, msg_code, pointer, orig } => error6(
                orig@,
                src_addr,
                dst_addr,
                msg_type,
                msg_code,
                pointer,
                caps.icmpv6.tx,
            ),
        }
    }

    /// The packet of the reply, as it leaves an interface with the given capabilities.
    pub open spec fn spec_packet(self, caps: ChecksumCapabilities) -> Option<Seq<u8>> {
        ip_packet(
            self.source(),
            self.destination(),
            self.spec_protocol(),
            64,
            caps.ipv4.tx,
            self.spec_message(caps),
        )
    }

    /// The source and the destination of the reply.
    pub fn addresses(&self) -> (addresses: (IpAddress, IpAddress))
        ensures
            addresses == (self.source(), self.destination()),
    {
        match self {
            Reply::Echo4 { src_addr, dst_addr, .. } => (
                IpAddress::Ipv4(*src_addr),
                IpAddress::Ipv4(*dst_addr),
            ),
            Reply::Echo6 { src_addr, dst_addr, .. } => (
                IpAddress::Ipv6(*src_addr),
                IpAddress::Ipv6(*dst_addr),
            ),
            Reply::Error4 { src_addr, dst_addr, .. } => (
                IpAddress::Ipv4(*src_addr),
                IpAddress::Ipv4(*dst_addr),
            ),
            Reply::Error6 { src_addr, dst_addr, .. } => (
                IpAddress::Ipv6(*src_addr),
                IpAddress::Ipv6(*dst_addr),
            ),
        }
    }

    /// Build the message of the reply, for an interface with the given capabilities.
    pub fn build(self, caps: &ChecksumCapabilities) -> (message: Vec<u8>)
        requires
            self.wf(),
        ensures
            message@ == self.spec_message(*caps),
    {
        match self {
            Reply::Echo4 { request, .. } => echo_reply4(request, caps),
            Reply::Echo6 { src_addr, dst_addr, request } => echo_reply6(
                request,
                &src_addr,
                &dst_addr,
                caps,
            ),
            Reply::Error4 { msg_type, msg_code, orig, .. } => build_icmpv4_error(
                orig.as_slice(),
                msg_type,
                msg_code,
                caps,
            ),
            Reply::Error6 { src_addr, dst_addr, msg_type, msg_code, pointer, orig } => {
                build_icmpv6_error(
                    orig.as_slice(),
                    &src_addr,
                    &dst_addr,
                    msg_type,
                    msg_code,
                    pointer,
                    caps,
                )
            },
        }
    }
}

impl Stack {
    /// Route a locally-generated reply to an ingress packet that arrived on `arrival`, and
    /// build its packet. `table` is the entry of the routing table for its destination.
    ///
    /// Replies are routed like any other egress, so they may leave a different interface than
    /// the packet came in on, and it is that interface, not the arrival one, whose checksum
    /// capabilities the reply is built with. Routing therefore comes before building. `None`
    /// if there is no route to the destination, in which case the reply is dropped.
    pub fn transmit_reply(
        &self,
        arrival: IfaceHandle,
        reply: Reply,
        table: Option<TableRoute>,
    ) -> (sent: Option<(EgressRoute, Vec<u8>)>)
        requires
            self.wf(),
            self.live(arrival),
            table matches Some(t) ==> self.live(t.iface),
            reply.wf(),
        ensures
            match sent {
                Some((route, packet)) => {
                    &&& reply_route_of(self.ifaces@, arrival, reply.destination(), table) == Some(
                        route,
                    )
                    &&& self.live(route.iface)
                    &&& reply.spec_packet(self.spec_iface(route.iface).checksum) == Some(packet@)
                },
                None => reply_route_of(self.ifaces@, arrival, reply.destination(), table) is None,
            },
    {
        let (src_addr, dst_addr) = reply.addresses();
        let (route, checksum_caps) = match self.route_reply(arrival, &dst_addr, table) {
            Some(found) => found,
            None => return None,
        };
        let next_header = match dst_addr {
            IpAddress::Ipv4(_) => Protocol(ICMP),
            IpAddress::Ipv6(_) => Protocol(ICMPV6),
        };
        let message: Vec<u8> = reply.build(&checksum_caps);
        match self.build_ip(&route, message, src_addr, dst_addr, next_header, 64) {
            Some(packet) => Some((route, packet)),
            None => None,
        }
    }
}

/// The TCP segment of a reply, as it leaves an interface with the given capabilities: the
/// checksum is filled in, or zero if the device fills it in.
pub open spec fn tcp_segment(
    segment: Seq<u8>,
    src_addr: IpAddress,
    dst_addr: IpAddress,
    caps: ChecksumCapabilities,
) -> Seq<u8> {
    if caps.tcp.tx {
        put16(segment, 16, 0)
    } else {
        tcp::with_filled_checksum(segment, src_addr, dst_addr)
    }
}

impl Stack {
    /// Route an immediate reply to an ingress TCP segment that arrived on `arrival`, an RST or a
    /// challenge ACK from a socket's state machine, and build its packet. `table` is the entry
    /// of the routing table for its destination.
    ///
    /// The reply is routed before its checksum is filled in, since that is the egress
    /// interface's to compute and that is not necessarily the arrival one. `None` if there is no
    /// route to the destination, in which case the reply is dropped.
    pub fn transmit_tcp_reply(
        &self,
        arrival: IfaceHandle,
        segment: Vec<u8>,
        src_addr: IpAddress,
        dst_addr: IpAddress,
        table: Option<TableRoute>,
    ) -> (sent: Option<(EgressRoute, Vec<u8>)>)
        requires
            self.wf(),
            self.live(arrival),
            table matches Some(t) ==> self.live(t.iface),
            segment@.len() >= tcp::HEADER_LEN,
            src_addr.spec_version() == dst_addr.spec_version(),
        ensures
            match sent {
                Some((route, packet)) => {
                    &&& reply_route_of(self.ifaces@, arrival, dst_addr, table) == Some(route)
                    &&& self.live(route.iface)
                    &&& ip_packet(
                        src_addr,
                        dst_addr,
                        Protocol(TCP),
                        64,
                        self.spec_iface(route.iface).checksum.ipv4.tx,
                        tcp_segment(
                            segment@,
                            src_addr,
                            dst_addr,
                            self.spec_iface(route.iface).checksum,
                        ),
                    ) == Some(packet@)
                },
                None => reply_route_of(self.ifaces@, arrival, dst_addr, table) is None,
            },
            sent matches Some((_, packet)) ==> (segment@.len() <= 0xffff - 20 ==> match dst_addr {
                IpAddress::Ipv4(_) => packet@[8] == 64 && packet@[9] == 6 && packet@.skip(20).take(
                    16,
                ) == segment@.take(16),
                IpAddress::Ipv6(_) => packet@[6] == 6 && packet@[7] == 64 && packet@.skip(40).take(
                    16,
                ) == segment@.take(16),
            }),
    {
        let (route, checksum_caps) = match self.route_reply(arrival, &dst_addr, table) {
            Some(found) => found,
            None => return None,
        };
        let ghost old_segment = segment@;
        let mut segment: Vec<u8> = segment;
        let mut tcp_packet = tcp::Packet::new_unchecked(segment.as_mut_slice());
        if checksum_caps.tcp.tx {
            tcp_packet.set_checksum(0);
        } else {
            tcp_packet.fill_checksum(&src_addr, &dst_addr);
        }
        proof {
            let sent_segment = tcp_segment(old_segment, src_addr, dst_addr, checksum_caps);
            if old_segment.len() <= 0xffff - 20 {
                law_tcp_segment(old_segment, src_addr, dst_addr, checksum_caps);
                law_ip_packet(
                    src_addr,
                    dst_addr,
                    Protocol(TCP),
                    64,
                    checksum_caps.ipv4.tx,
                    sent_segment,
                );
            }
        }
        match self.build_ip(&route, segment, src_addr, dst_addr, Protocol(TCP), 64) {
            Some(packet) => Some((route, packet)),
            None => None,
        }
    }
}

/// The ICMPv4 error about a packet, if one may be sent: both the source and the destination of
/// the packet are unicast (RFC 1122 §3.2.2).
pub open spec fn is_error_reply4(
    iface: IfaceState,
    orig: Seq<u8>,
    msg_type: u8,
    msg_code: u8,
    reply: Option<Reply>,
) -> bool {
    let header = ipv4::header(orig);
    if iface.spec_is_unicast_v4(header.src_addr) && iface.spec_is_unicast_v4(header.dst_addr) {
        reply matches Some(Reply::Error4 { src_addr, dst_addr, msg_type: t, msg_code: c, orig: o })
            && src_addr == header.dst_addr && dst_addr == header.src_addr && t == msg_type && c
            == msg_code && o@ == orig
    } else {
        reply is None
    }
}

/// The ICMPv6 error about a packet, if one may be sent: the source of the packet is unicast, and
/// the destination is not multicast unless that is allowed (RFC 4443 §2.4). It comes from the
/// destination of the packet if that is unicast, and from `source` otherwise.
pub open spec fn is_error_reply6(
    orig: Seq<u8>,
    msg_type: u8,
    msg_code: u8,
    pointer: u32,
    allow_multicast_dst: bool,
    source: ipv6::Address,
    reply: Option<Reply>,
) -> bool {
    let header = ipv6::header(orig);
    let reply_src = if header.dst_addr.spec_is_unicast() {
        header.dst_addr
    } else {
        source
    };
    if header.src_addr.spec_is_unicast() && (header.dst_addr.spec_is_multicast()
        ==> allow_multicast_dst) {
        reply matches Some(
            Reply::Error6 { src_addr, dst_addr, msg_type: t, msg_code: c, pointer: p, orig: o },
        ) && src_addr == reply_src && dst_addr == header.src_addr && t == msg_type && c == msg_code
            && p == pointer && o@ == orig
    } else {
        reply is None
    }
}

impl IfaceState {
    /// Make an ICMPv4 error message in reply to the ingress packet in `orig` (a whole IP
    /// packet, starting at the IP header, quoted in the error).
    ///
    /// Errors are only sent when both the source and the destination of the offending packet
    /// are unicast (RFC 1122 §3.2.2): none about broadcast or multicast traffic, and none to
    /// non-unicast senders.
    pub fn transmit_icmpv4_error(
        &self,
        orig: Vec<u8>,
        msg_type: u8,
        msg_code: u8,
    ) -> (reply: Option<Reply>)
        requires
            orig@.len() >= 20,
        ensures
            is_error_reply4(*self, orig@, msg_type, msg_code, reply),
    {
        let mut orig: Vec<u8> = orig;
        let packet = ipv4::Packet::new_unchecked(orig.as_mut_slice());
        let src_addr = packet.src_addr();
        let dst_addr = packet.dst_addr();
        if !self.is_unicast_v4(src_addr) || !self.is_unicast_v4(dst_addr) {
            return None;
        }
        Some(Reply::Error4 { src_addr: dst_addr, dst_addr: src_addr, msg_type, msg_code, orig })
    }
}

/// Make an ICMPv6 error message in reply to the ingress packet in `orig` (a whole IP packet,
/// starting at the IP header, quoted in the error). `source` is the address to send from if the
/// destination of the packet cannot be.
///
/// Errors are never sent to non-unicast sources, nor about multicast-destined packets (RFC 4443
/// §2.4). The exception is an unrecognized hop-by-hop option whose type demands the error even
/// then (`allow_multicast_dst`).
pub fn transmit_icmpv6_error(
    orig: Vec<u8>,
    msg_type: u8,
    msg_code: u8,
    pointer: u32,
    allow_multicast_dst: bool,
    source: ipv6::Address,
) -> (reply: Option<Reply>)
    requires
        orig@.len() >= 40,
    ensures
        is_error_reply6(orig@, msg_type, msg_code, pointer, allow_multicast_dst, source, reply),
{
    let mut orig: Vec<u8> = orig;
    let packet = ipv6::Packet::new_unchecked(orig.as_mut_slice());
    let src_addr = packet.src_addr();
    let dst_addr = packet.dst_addr();
    if !src_addr.x_is_unicast() {
        return None;
    }
    if dst_addr.is_multicast() && !allow_multicast_dst {
        return None;
    }
    let reply_src = if dst_addr.x_is_unicast() {
        dst_addr
    } else {
        source
    };
    Some(
        Reply::Error6 { src_addr: reply_src, dst_addr: src_addr, msg_type, msg_code, pointer, orig },
    )
}

impl IfaceState {
    /// Answer an IPv4 packet with a UDP datagram that no socket takes, an ICMPv4 port
    /// unreachable error that quotes the packet. An application that handles UDP through a raw
    /// socket suppresses the error.
    pub fn port_unreachable_v4(&self, packet: Vec<u8>, handled_by_raw: bool) -> (reply: Option<
        Reply,
    >)
        requires
            packet@.len() >= 20,
        ensures
            handled_by_raw ==> reply is None,
            !handled_by_raw ==> is_error_reply4(
                *self,
                packet@,
                control4::DST_UNREACHABLE,
                control4::PORT_UNREACHABLE,
                reply,
            ),
            reply matches Some(r) ==> (r matches Reply::Error4 { msg_type, msg_code, .. } && msg_type
                == 3 && msg_code == 3),
    {
        if handled_by_raw {
            return None;
        }
        self.transmit_icmpv4_error(
            packet,
            control4::DST_UNREACHABLE,
            control4::PORT_UNREACHABLE,
        )
    }
}

/// Answer an IPv6 packet with a UDP datagram that no socket takes, an ICMPv6 port unreachable
/// error that quotes the packet. An application that handles UDP through a raw socket suppresses
/// the error. `source` is the address to send from if the destination of the packet cannot be.
pub fn port_unreachable_v6(
    packet: Vec<u8>,
    handled_by_raw: bool,
    source: ipv6::Address,
) -> (reply: Option<Reply>)
    requires
        packet@.len() >= 40,
    ensures
        handled_by_raw ==> reply is None,
        !handled_by_raw ==> is_error_reply6(
            packet@,
            control6::DST_UNREACHABLE,
            control6::PORT_UNREACHABLE,
            0,
            false,
            source,
            reply,
        ),
        reply matches Some(r) ==> (r matches Reply::Error6 { msg_type, msg_code, pointer, .. }
            && msg_type == 1 && msg_code == 4 && pointer == 0),
{
    if handled_by_raw {
        return None;
    }
    transmit_icmpv6_error(
        packet,
        control6::DST_UNREACHABLE,
        control6::PORT_UNREACHABLE,
        0,
        false,
        source,
    )
}

/// When a packet is answered with an ICMPv4 error, and with which: where both the source and the
/// destination of the packet are unicast addresses on the interface, for every type and code, and
/// whatever the packet carries. The error goes back from the destination to the source.
pub proof fn law_error_reply4(
    iface: IfaceState,
    orig: Seq<u8>,
    msg_type: u8,
    msg_code: u8,
    reply: Option<Reply>,
)
    requires
        is_error_reply4(iface, orig, msg_type, msg_code, reply),
    ensures
        ({
            let from = ipv4::Address { bits: be32(orig, 12) as u32 };
            let to = ipv4::Address { bits: be32(orig, 16) as u32 };
            &&& reply is Some <==> iface.spec_is_unicast_v4(from) && iface.spec_is_unicast_v4(to)
            &&& reply matches Some(r) ==> {
                &&& r matches Reply::Error4 { msg_type: t, msg_code: c, orig: o, .. }
                &&& r.source() == IpAddress::Ipv4(to)
                &&& r.destination() == IpAddress::Ipv4(from)
                &&& t == msg_type
                &&& c == msg_code
                &&& o@ == orig
            }
        }),
{
}

/// When a packet is answered with an ICMPv6 error, and with which: where its source is a unicast
/// address, and its destination is no group unless that is allowed, for every type and code, and
/// whatever the packet carries. The error goes back to the source. It comes from the destination,
/// or from the address that stands in for it if nothing can be sent from it.
pub proof fn law_error_reply6(
    orig: Seq<u8>,
    msg_type: u8,
    msg_code: u8,
    pointer: u32,
    allow_multicast_dst: bool,
    source: ipv6::Address,
    reply: Option<Reply>,
)
    requires
        is_error_reply6(orig, msg_type, msg_code, pointer, allow_multicast_dst, source, reply),
    ensures
        ({
            let from = ipv6::Address { bits: be128(orig, 8) as u128 };
            let to = ipv6::Address { bits: be128(orig, 24) as u128 };
            let group = to.bits >= 0xff00_0000_0000_0000_0000_0000_0000_0000;
            &&& reply is Some <==> 0 < from.bits < 0xff00_0000_0000_0000_0000_0000_0000_0000 && (
            group ==> allow_multicast_dst)
            &&& reply matches Some(r) ==> {
                &&& r matches Reply::Error6 { msg_type: t, msg_code: c, pointer: p, orig: o, .. }
                &&& r.source() == IpAddress::Ipv6(
                    if to.bits == 0 || group {
                        source
                    } else {
                        to
                    },
                )
                &&& r.destination() == IpAddress::Ipv6(from)
                &&& t == msg_type
                &&& c == msg_code
                &&& p == pointer
                &&& o@ == orig
            }
        }),
{
    ipv6::law_address_class(ipv6::Address { bits: be128(orig, 8) as u128 });
    ipv6::law_address_class(ipv6::Address { bits: be128(orig, 24) as u128 });
}

/// What a reply is as a packet: one from its source to its destination, with a hop limit of 64,
/// that carries its message as ICMP, which is protocol 1 over IPv4 and 58 over IPv6.
pub proof fn law_reply_packet(reply: Reply, caps: ChecksumCapabilities)
    requires
        reply.spec_message(caps).len() <= 0xffff - 20,
    ensures
        reply.spec_packet(caps) matches Some(s) && match (reply.source(), reply.destination()) {
            (IpAddress::Ipv4(src), IpAddress::Ipv4(dst)) => {
                &&& s[0] == 0x45
                &&& s[8] == 64
                &&& s[9] == 1
                &&& be32(s, 12) == src.bits
                &&& be32(s, 16) == dst.bits
                &&& s.skip(20) == reply.spec_message(caps)
            },
            (IpAddress::Ipv6(src), IpAddress::Ipv6(dst)) => {
                &&& s[0] / 16 == 6
                &&& s[6] == 58
                &&& s[7] == 64
                &&& be128(s, 8) == src.bits
                &&& be128(s, 24) == dst.bits
                &&& s.skip(40) == reply.spec_message(caps)
            },
            _ => false,
        },
{
    law_ip_packet(
        reply.source(),
        reply.destination(),
        reply.spec_protocol(),
        64,
        caps.ipv4.tx,
        reply.spec_message(caps),
    );
}

/// What the message of an echo reply is: the request, of type 0 over ICMPv4 and 129 over ICMPv6,
/// with the checksum for the new type unless the device fills it in.
pub proof fn law_echo_message(reply: Reply, caps: ChecksumCapabilities)
    requires
        reply.wf(),
    ensures
        reply matches Reply::Echo4 { request, .. } ==> {
            let s = reply.spec_message(caps);
            &&& s.len() == request@.len()
            &&& s[0] == 0
            &&& s[1] == request@[1]
            &&& s.skip(4) == request@.skip(4)
            &&& !caps.icmpv4.tx ==> fold(word_sum(s)) == 0xffff
            &&& caps.icmpv4.tx ==> s[2] == 0 && s[3] == 0
        },
        reply matches Reply::Echo6 { src_addr, dst_addr, request } ==> {
            let s = reply.spec_message(caps);
            &&& s.len() == request@.len()
            &&& s[0] == 129
            &&& s[1] == request@[1]
            &&& s.skip(4) == request@.skip(4)
            &&& !caps.icmpv6.tx ==> control6::checksum_ok(s, src_addr, dst_addr)
            &&& caps.icmpv6.tx ==> s[2] == 0 && s[3] == 0
        },
{
    match reply {
        Reply::Echo4 { src_addr, dst_addr, request } => {
            let s = reply.spec_message(caps);
            control4::law_filled_checksum(request@.update(0, control4::ECHO_REPLY));
            assert(s.skip(4) =~= request@.skip(4));
        },
        Reply::Echo6 { src_addr, dst_addr, request } => {
            let s = reply.spec_message(caps);
            control6::law_filled_checksum(
                request@.update(0, control6::ECHO_REPLY),
                src_addr,
                dst_addr,
            );
            assert(s.skip(4) =~= request@.skip(4));
        },
        _ => {},
    }
}

/// A TCP segment leaves as it is but for its checksum, which is right for the addresses that it is
/// sent between, or zero if the device fills it in.
pub proof fn law_tcp_segment(
    segment: Seq<u8>,
    src_addr: IpAddress,
    dst_addr: IpAddress,
    caps: ChecksumCapabilities,
)
    requires
        20 <= segment.len() <= 0xffff_ffff,
    ensures
        ({
            let s = tcp_segment(segment, src_addr, dst_addr, caps);
            &&& s.len() == segment.len()
            &&& s.take(16) == segment.take(16)
            &&& s.skip(18) == segment.skip(18)
            &&& caps.tcp.tx ==> s[16] == 0 && s[17] == 0
            &&& !caps.tcp.tx ==> fold(
                word_sum(
                    src_addr.octets_of() + dst_addr.octets_of() + octets32(s.len() as int) + seq![
                        0u8,
                        0,
                        0,
                        6,
                    ] + s,
                ),
            ) == 0xffff
        }),
{
    let s = tcp_segment(segment, src_addr, dst_addr, caps);
    if caps.tcp.tx {
        assert(s.take(16) =~= segment.take(16));
        assert(s.skip(18) =~= segment.skip(18));
    } else {
        tcp::law_filled_checksum(segment, src_addr, dst_addr);
        tcp::law_filled_checksum_keeps(segment, src_addr, dst_addr);
        tcp::law_segment_sum(src_addr, dst_addr, s);
    }
}

} // verus!

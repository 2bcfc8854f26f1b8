//! Processing ICMP messages.

use vstd::prelude::*;

use crate::iface::{first_ipv4, IfaceState};
use crate::reply::Reply;
use crate::wire::checksum::{fold, word_sum};
use crate::wire::ip::{
    Address as IpAddress, Cidr as IpCidr, Endpoint as IpEndpoint, Protocol, TCP, UDP,
};
use crate::wire::tcp::SeqNumber;
use crate::wire::{control4, control6, ipv4, ipv6, HardwareAddress};

verus! {

/// What is to be done about an ICMP message.
pub enum ControlIngress {
    /// Nothing.
    Drop,
    /// Reply to the sender.
    Reply(Reply),
    /// Deliver the error to the socket whose packet provoked it, if its type and code mean
    /// anything to a socket.
    Error {
        /// The type of the message.
        msg_type: u8,
        /// The code of the message.
        msg_code: u8,
        /// The offending packet as quoted in the error.
        quote: Vec<u8>,
    },
    /// Process a neighbor solicitation.
    NeighborSolicit(Vec<u8>),
    /// Process a neighbor advertisement.
    NeighborAdvert(Vec<u8>),
    /// Process a multicast listener query.
    MldQuery(Vec<u8>),
    /// Process a router advertisement.
    RouterAdvert(Vec<u8>),
}

/// The address that the reply to an ICMPv4 echo request from `src_addr` to `dst_addr` comes
/// from. No reply is sent to a source that is not unicast. A request to an unicast address is
/// answered from that address, one to a broadcast address from the address of the interface,
/// and one to a multicast group is not answered.
pub open spec fn echo_source4(
    iface: IfaceState,
    src_addr: ipv4::Address,
    dst_addr: ipv4::Address,
) -> Option<ipv4::Address> {
    if !iface.spec_is_unicast_v4(src_addr) {
        None
    } else if iface.spec_is_broadcast_v4(dst_addr) {
        first_ipv4(iface.ip_addrs@, 0)
    } else if dst_addr.spec_is_unicast() {
        Some(dst_addr)
    } else {
        None
    }
}

/// Whether `ingress` is what is to be done about the ICMPv4 message `s`.
pub open spec fn is_control4(
    iface: IfaceState,
    src_addr: ipv4::Address,
    dst_addr: ipv4::Address,
    s: Seq<u8>,
    ingress: ControlIngress,
) -> bool {
    if s.len() < 8 || !(iface.checksum.icmpv4.rx || control4::checksum_ok(s)) {
        ingress is Drop
    } else if s[0] == control4::ECHO_REQUEST && s[1] == 0 {
        match echo_source4(iface, src_addr, dst_addr) {
            Some(reply_src) => ingress matches ControlIngress::Reply(
                Reply::Echo4 { src_addr: from, dst_addr: to, request },
            ) && from == reply_src && to == src_addr && request@ == s,
            None => ingress is Drop,
        }
    } else if control4::spec_is_error(s[0]) {
        ingress matches ControlIngress::Error { msg_type, msg_code, quote } && msg_type == s[0]
            && msg_code == s[1] && quote@ == s.skip(8)
    } else {
        ingress is Drop
    }
}

/// Whether a neighbor discovery message is valid: it arrived with the un-decremented hop limit,
/// on a medium with link-layer addresses.
pub open spec fn on_link(hop_limit: u8, ll_src: Option<HardwareAddress>) -> bool {
    hop_limit == 0xff && ll_src is Some
}

/// Whether a router advertisement is valid: it comes from a link-local source, and was sent to
/// all nodes or to a link-local address (RFC 4861 §6.1.2).
pub open spec fn advert_scope_ok(src_addr: ipv6::Address, dst_addr: ipv6::Address) -> bool {
    &&& src_addr.spec_is_link_local()
    &&& dst_addr.bits == 0xff02_0000_0000_0000_0000_0000_0000_0001
        || dst_addr.spec_is_link_local()
}

/// Whether `ingress` is what is to be done about the ICMPv6 message `s`, where `source` is the
/// address that a reply comes from if the destination of the message cannot be.
pub open spec fn is_control6(
    iface: IfaceState,
    ll_src: Option<HardwareAddress>,
    src_addr: ipv6::Address,
    dst_addr: ipv6::Address,
    hop_limit: u8,
    source: ipv6::Address,
    s: Seq<u8>,
    ingress: ControlIngress,
) -> bool {
    if s.len() < 8 || !(iface.checksum.icmpv6.rx || control6::checksum_ok(s, src_addr, dst_addr)) {
        ingress is Drop
    } else if s[0] == control6::ECHO_REQUEST {
        ingress matches ControlIngress::Reply(
            Reply::Echo6 { src_addr: from, dst_addr: to, request },
        ) && from == (if dst_addr.spec_is_unicast() {
            dst_addr
        } else {
            source
        }) && to == src_addr && request@ == s
    } else if control6::spec_is_error(s[0]) {
        ingress matches ControlIngress::Error { msg_type, msg_code, quote } && msg_type == s[0]
            && msg_code == s[1] && quote@ == s.skip(8)
    } else if s[0] == control6::NEIGHBOR_SOLICIT && on_link(hop_limit, ll_src) {
        ingress matches ControlIngress::NeighborSolicit(message) && message@ == s
    } else if s[0] == control6::NEIGHBOR_ADVERT && on_link(hop_limit, ll_src) {
        ingress matches ControlIngress::NeighborAdvert(message) && message@ == s
    } else if s[0] == control6::MLD_QUERY && hop_limit == 1 && src_addr.spec_is_link_local() {
        ingress matches ControlIngress::MldQuery(message) && message@ == s
    } else if s[0] == control6::ROUTER_ADVERT && on_link(hop_limit, ll_src) && advert_scope_ok(
        src_addr,
        dst_addr,
    ) {
        ingress matches ControlIngress::RouterAdvert(message) && message@ == s
    } else {
        ingress is Drop
    }
}

/// What becomes of ICMPv4 messages. One that is cut short or has a wrong checksum is dropped.
/// Every error message is delivered, whatever its code is, with what follows its eight octets of
/// header as the quote. An echo request from a unicast address is answered, from the address that
/// it was sent to, or from the first address of the interface if it was sent to a broadcast
/// address. All other messages are dropped.
pub proof fn law_control4(
    iface: IfaceState,
    src_addr: ipv4::Address,
    dst_addr: ipv4::Address,
    s: Seq<u8>,
    ingress: ControlIngress,
)
    requires
        is_control4(iface, src_addr, dst_addr, s, ingress),
    ensures
        s.len() < 8 ==> ingress is Drop,
        !iface.checksum.icmpv4.rx && fold(word_sum(s)) != 0xffff ==> ingress is Drop,
        s.len() >= 8 && (iface.checksum.icmpv4.rx || fold(word_sum(s)) == 0xffff) ==> {
            &&& s[0] == 3 || s[0] == 4 || s[0] == 5 || s[0] == 11 || s[0] == 12
                <==> ingress is Error
            &&& ingress matches ControlIngress::Error { msg_type, msg_code, quote } ==> msg_type
                == s[0] && msg_code == s[1] && quote@ == s.skip(8)
            &&& s[0] == 8 && s[1] == 0 && iface.spec_is_unicast_v4(src_addr)
                && iface.spec_is_unicast_v4(dst_addr) ==> (ingress matches ControlIngress::Reply(
                Reply::Echo4 { src_addr: from, dst_addr: to, request },
            ) && from == dst_addr && to == src_addr && request@ == s)
            &&& s[0] == 8 && s[1] == 0 && iface.spec_is_unicast_v4(src_addr)
                && iface.spec_is_broadcast_v4(dst_addr) && iface.ip_addrs@.len() > 0 ==> (
            iface.ip_addrs@[0] matches IpCidr::Ipv4(own) ==> (ingress matches ControlIngress::Reply(
                Reply::Echo4 { src_addr: from, dst_addr: to, request },
            ) && from == own.spec_address() && to == src_addr && request@ == s))
            &&& s[0] == 8 && s[1] == 0 && iface.spec_is_unicast_v4(src_addr)
                && iface.spec_is_broadcast_v4(dst_addr) ==> match first_ipv4(iface.ip_addrs@, 0) {
                Some(own) => ingress matches ControlIngress::Reply(
                    Reply::Echo4 { src_addr: from, dst_addr: to, request },
                ) && from == own && to == src_addr && request@ == s,
                None => ingress is Drop,
            }
            &&& ingress is Reply ==> s[0] == 8 && s[1] == 0 && iface.spec_is_unicast_v4(src_addr)
                && (dst_addr.spec_is_multicast() ==> iface.spec_is_broadcast_v4(dst_addr))
            &&& ingress is Drop || ingress is Reply || ingress is Error
        },
{
    if iface.ip_addrs@.len() > 0 {
        reveal_with_fuel(first_ipv4, 2);
    }
}

/// What becomes of ICMPv6 messages. One that is cut short or has a wrong checksum is dropped.
/// Every error message is delivered, whatever its code is, and every echo request is answered.
/// Neighbor discovery is for packets that come from the link itself: their hop limit was not
/// decremented, and they arrived in a frame with a source address.
pub proof fn law_control6(
    iface: IfaceState,
    ll_src: Option<HardwareAddress>,
    src_addr: ipv6::Address,
    dst_addr: ipv6::Address,
    hop_limit: u8,
    source: ipv6::Address,
    s: Seq<u8>,
    ingress: ControlIngress,
)
    requires
        is_control6(iface, ll_src, src_addr, dst_addr, hop_limit, source, s, ingress),
    ensures
        s.len() < 8 ==> ingress is Drop,
        !iface.checksum.icmpv6.rx && !control6::checksum_ok(s, src_addr, dst_addr)
            ==> ingress is Drop,
        s.len() >= 8 && (iface.checksum.icmpv6.rx || control6::checksum_ok(s, src_addr, dst_addr))
            ==> {
            &&& s[0] < 128 <==> ingress is Error
            &&& ingress matches ControlIngress::Error { msg_type, msg_code, quote } ==> msg_type
                == s[0] && msg_code == s[1] && quote@ == s.skip(8)
            &&& s[0] == 128 <==> ingress is Reply
            &&& ingress matches ControlIngress::Reply(reply) ==> {
                &&& reply matches Reply::Echo6 { src_addr: from, dst_addr: to, request }
                &&& to == src_addr
                &&& request@ == s
                &&& dst_addr.spec_is_unicast() ==> from == dst_addr
                &&& !dst_addr.spec_is_unicast() ==> from == source
            }
            &&& ingress is NeighborSolicit <==> s[0] == 135 && hop_limit == 255 && ll_src is Some
            &&& ingress is NeighborAdvert <==> s[0] == 136 && hop_limit == 255 && ll_src is Some
            &&& ingress is MldQuery <==> s[0] == 130 && hop_limit == 1
                && src_addr.spec_is_link_local()
            &&& ingress is RouterAdvert <==> s[0] == 134 && hop_limit == 255 && ll_src is Some
                && src_addr.spec_is_link_local() && (dst_addr.spec_is_link_local() || dst_addr.bits
                == 0xff02_0000_0000_0000_0000_0000_0000_0001)
            &&& ingress matches ControlIngress::NeighborSolicit(message) ==> message@ == s
            &&& ingress matches ControlIngress::NeighborAdvert(message) ==> message@ == s
            &&& ingress matches ControlIngress::MldQuery(message) ==> message@ == s
            &&& ingress matches ControlIngress::RouterAdvert(message) ==> message@ == s
        },
{
}

/// An error message, for delivery to a socket.
fn error_of(message: &[u8]) -> (ingress: ControlIngress)
    requires
        message@.len() >= 8,
    ensures
        ingress matches ControlIngress::Error { msg_type, msg_code, quote } && msg_type
            == message@[0] && msg_code == message@[1] && quote@ == message@.skip(8),
{
    let len: usize = message.len();
    let mut quote: Vec<u8> = Vec::new();
    quote.extend_from_slice(&message[8..len]);
    assert(quote@ =~= message@.skip(8));
    ControlIngress::Error { msg_type: message[0], msg_code: message[1], quote }
}

impl IfaceState {
    /// The address that the reply to an ICMPv4 echo request comes from.
    fn echo_source_v4(&self, src_addr: ipv4::Address, dst_addr: ipv4::Address) -> (source: Option<
        ipv4::Address,
    >)
        ensures
            source == echo_source4(*self, src_addr, dst_addr),
    {
        // Do not send ICMP replies to non-unicast sources.
        if !self.is_unicast_v4(src_addr) {
            return None;
        }
        // Reply as normal when src_addr and dst_addr are both unicast; only reply to
        // broadcasts for echo replies and not other ICMP messages.
        let dst_is_broadcast = self.is_broadcast_v4(dst_addr);
        if dst_addr.x_is_unicast() && !dst_is_broadcast {
            Some(dst_addr)
        } else if dst_is_broadcast {
            self.ipv4_addr()
        } else {
            None
        }
    }

    /// Process an ICMPv4 message: respond to echo requests, and deliver error messages to the
    /// socket whose packet provoked them. Everything else, echo replies included, is ignored.
    pub fn process_icmpv4(
        &self,
        src_addr: ipv4::Address,
        dst_addr: ipv4::Address,
        message: Vec<u8>,
    ) -> (ingress: ControlIngress)
        ensures
            is_control4(*self, src_addr, dst_addr, message@, ingress),
            message@.len() >= 8 && (self.checksum.icmpv4.rx || fold(word_sum(message@)) == 0xffff)
                && (message@[0] == 3 || message@[0] == 4 || message@[0] == 5 || message@[0] == 11
                || message@[0] == 12) ==> (ingress matches ControlIngress::Error {
                msg_type,
                msg_code,
                quote,
            } && msg_type == message@[0] && msg_code == message@[1] && quote@ == message@.skip(8)),
    {
        if message.len() < 8 {
            return ControlIngress::Drop;
        }
        if !self.checksum.icmpv4.rx && !control4::verify_checksum(message.as_slice()) {
            return ControlIngress::Drop;
        }
        if message[0] == control4::ECHO_REQUEST && message[1] == 0 {
            return match self.echo_source_v4(src_addr, dst_addr) {
                // The reply is the request with the message type changed: ident, seq and
                // payload stay put.
                Some(reply_src) => ControlIngress::Reply(
                    Reply::Echo4 { src_addr: reply_src, dst_addr: src_addr, request: message },
                ),
                None => ControlIngress::Drop,
            };
        }
        if control4::is_error(message[0]) {
            return error_of(message.as_slice());
        }
        ControlIngress::Drop
    }

    /// Process an ICMPv6 message: respond to echo requests, deliver error messages to the socket
    /// whose packet provoked them, and hand neighbor discovery and multicast messages that pass
    /// the reception checks of their protocol on.
    ///
    /// `ll_src` is the link-layer source address of the frame the packet arrived in, `None` on
    /// a medium without link-layer addresses. `source` is the address to reply from if the
    /// destination of the message cannot be.
    pub fn process_icmpv6(
        &self,
        ll_src: Option<HardwareAddress>,
        src_addr: ipv6::Address,
        dst_addr: ipv6::Address,
        hop_limit: u8,
        message: Vec<u8>,
        source: ipv6::Address,
    ) -> (ingress: ControlIngress)
        ensures
            is_control6(
                *self,
                ll_src,
                src_addr,
                dst_addr,
                hop_limit,
                source,
                message@,
                ingress,
            ),
            message@.len() >= 8 && (self.checksum.icmpv6.rx || control6::checksum_ok(
                message@,
                src_addr,
                dst_addr,
            )) && message@[0] < 128 ==> (ingress matches ControlIngress::Error {
                msg_type,
                msg_code,
                quote,
            } && msg_type == message@[0] && msg_code == message@[1] && quote@ == message@.skip(8)),
    {
        if message.len() < 8 {
            return ControlIngress::Drop;
        }
        if !self.checksum.icmpv6.rx && !control6::verify_checksum(
            message.as_slice(),
            &src_addr,
            &dst_addr,
        ) {
            return ControlIngress::Drop;
        }
        let msg_type: u8 = message[0];
        if msg_type == control6::ECHO_REQUEST {
            let reply_src = if dst_addr.x_is_unicast() {
                dst_addr
            } else {
                source
            };
            // The reply is the request with the message type changed: ident, seq and payload
            // stay put.
            return ControlIngress::Reply(
                Reply::Echo6 { src_addr: reply_src, dst_addr: src_addr, request: message },
            );
        }
        if control6::is_error(msg_type) {
            return error_of(message.as_slice());
        }
        // NDISC is only processed if the packet arrived with the un-decremented hop limit, and
        // only on mediums with link-layer addresses.
        let on_link = hop_limit == 0xff && ll_src.is_some();
        if msg_type == control6::NEIGHBOR_SOLICIT && on_link {
            return ControlIngress::NeighborSolicit(message);
        }
        if msg_type == control6::NEIGHBOR_ADVERT && on_link {
            return ControlIngress::NeighborAdvert(message);
        }
        // [RFC 3810 § 6.2], reception checks
        if msg_type == control6::MLD_QUERY && hop_limit == 1 && src_addr.is_link_local() {
            return ControlIngress::MldQuery(message);
        }
        // RFC 4861 §6.1.2: a router advertisement is only valid from a link-local source, with
        // the un-decremented hop limit.
        if msg_type == control6::ROUTER_ADVERT && on_link && src_addr.is_link_local() && (dst_addr
            == ipv6::link_local_all_nodes() || dst_addr.is_link_local()) {
            return ControlIngress::RouterAdvert(message);
        }
        ControlIngress::Drop
    }
}

/// What the beginning of a packet that an ICMP error quotes says about the flow that it belongs
/// to. It is a packet *we sent*, so its source is the local end.
#[derive(Debug, Clone, Copy, PartialEq, Eq, Structural)]
pub struct QuotedPacket {
    /// The source of the packet.
    pub src_addr: IpAddress,
    /// The source port.
    pub src_port: u16,
    /// The destination of the packet.
    pub dst_addr: IpAddress,
    /// The destination port.
    pub dst_port: u16,
    /// The protocol of the packet.
    pub protocol: Protocol,
    /// The sequence number, if the packet is a TCP segment.
    pub tcp_seq: Option<SeqNumber>,
}

/// The sockets that an ICMP error is for.
#[derive(Debug, Clone, Copy, PartialEq, Eq)]
pub enum ErrorDelivery<E> {
    /// None.
    Ignore,
    /// The UDP socket that matches the flow best.
    Udp {
        /// The error.
        error: E,
        /// The local end of the flow.
        local: IpEndpoint,
        /// The other end of the flow.
        remote: IpEndpoint,
    },
    /// The TCP socket with exactly this connection, which additionally validates the quoted
    /// sequence number against its send window (RFC 5927).
    Tcp {
        /// The error.
        error: E,
        /// The local end of the connection.
        local: IpEndpoint,
        /// The other end of the connection.
        remote: IpEndpoint,
        /// The quoted sequence number.
        tcp_seq: Option<SeqNumber>,
    },
}

/// Find out which socket's packet provoked an ICMP error, from the offending packet as quoted in
/// the error.
///
/// `error` is what the type and code of the message mean to a socket, `None` if nothing.
/// `quoted` is what the quote says, `None` if it is too short to identify a flow. The sequence
/// number of a quoted TCP segment is passed on, for the socket to hold against its send window.
pub fn deliver_icmp_error<E>(error: Option<E>, quoted: Option<QuotedPacket>) -> (delivery:
    ErrorDelivery<E>)
    ensures
        delivery == match (error, quoted) {
            (Some(error), Some(q)) => {
                let local = IpEndpoint { addr: q.src_addr, port: q.src_port };
                let remote = IpEndpoint { addr: q.dst_addr, port: q.dst_port };
                if q.protocol.0 == UDP {
                    ErrorDelivery::Udp { error, local, remote }
                } else if q.protocol.0 == TCP {
                    ErrorDelivery::Tcp { error, local, remote, tcp_seq: q.tcp_seq }
                } else {
                    ErrorDelivery::Ignore
                }
            },
            _ => ErrorDelivery::Ignore,
        },
        error is None || quoted is None ==> delivery is Ignore,
        quoted matches Some(q) ==> {
            &&& q.protocol.0 != 17 && q.protocol.0 != 6 ==> delivery is Ignore
            &&& error is Some && q.protocol.0 == 17 ==> (delivery matches ErrorDelivery::Udp {
                local,
                remote,
                ..
            } && local.addr == q.src_addr && local.port == q.src_port && remote.addr == q.dst_addr
                && remote.port == q.dst_port)
            &&& error is Some && q.protocol.0 == 6 ==> (delivery matches ErrorDelivery::Tcp {
                local,
                remote,
                tcp_seq,
                ..
            } && local.addr == q.src_addr && local.port == q.src_port && remote.addr == q.dst_addr
                && remote.port == q.dst_port && tcp_seq == q.tcp_seq)
        },
{
    let error = match error {
        Some(error) => error,
        None => return ErrorDelivery::Ignore,
    };
    let quoted = match quoted {
        Some(quoted) => quoted,
        None => return ErrorDelivery::Ignore,
    };
    let local = IpEndpoint::new(quoted.src_addr, quoted.src_port);
    let remote = IpEndpoint::new(quoted.dst_addr, quoted.dst_port);
    if quoted.protocol.0 == UDP {
        ErrorDelivery::Udp { error, local, remote }
    } else if quoted.protocol.0 == TCP {
        ErrorDelivery::Tcp { error, local, remote, tcp_seq: quoted.tcp_seq }
    } else {
        ErrorDelivery::Ignore
    }
}

} // verus!

//! Neighbor discovery: ARP and NDISC.

use vstd::prelude::*;

use crate::driver::{ChecksumCapabilities, Medium};
use crate::egress::{
    build_icmpv4_error, build_icmpv6_error, error4, error6, ethernet_frame, ipv4_packet,
    ipv6_header, law_error4, law_error6, law_ipv4_packet, law_ipv6_packet, push_ipv4_header,
    push_ipv6_header, quote,
};
use crate::endian::{
    be128, be16, be32, lemma_be128_octets128, lemma_be32_octets32, octets32, read_u128,
};
use crate::iface::{is_solicited_node_of, IfaceHandle, IfaceState};
use crate::ingress::frame_accepted;
use crate::link::{
    arp_request, build_ndisc, is_lookup, law_ndisc_octets, ndisc_message, ndisc_packet,
    NeighborAnswer, NeighborLookup,
};
use crate::options::{
    law_lladdr_round_trip, lladdr_option, ndisc_lladdr_option, scan, SOURCE_LINK_LAYER_ADDR,
    TARGET_LINK_LAYER_ADDR,
};
use crate::pending::{matching, others, NeighborKey, PendingPacket};
use crate::stack::Stack;
use crate::wire::arp;
use crate::wire::checksum::{fold, word_sum};
use crate::wire::ethernet::{
    broadcast_octets, Address as EthernetAddress, EtherType, ETHERTYPE_ARP,
};
use crate::wire::hardware::raw_len;
use crate::wire::ip::{
    version_of, Address as IpAddress, Cidr as IpCidr, Protocol, Version as IpVersion, ICMP, ICMPV6,
};
use crate::wire::{control4, control6, ipv4, ipv6, HardwareAddress};

verus! {

/// A neighbor that asked for an address of ours, or answered for its own.
pub struct ArpIngress {
    /// The IPv4 address of the neighbor.
    pub addr: ipv4::Address,
    /// The Ethernet address of the neighbor.
    pub hardware_addr: EthernetAddress,
    /// The frame that answers the neighbor.
    pub reply: Option<Vec<u8>>,
}

/// Whether an ARP packet is processed: a request or reply, for an address of ours, from an
/// unicast neighbor on a network of the interface.
pub open spec fn arp_accepted(iface: IfaceState, s: Seq<u8>) -> bool {
    &&& arp::well_formed(s)
    &&& iface.spec_has_ip_addr(IpAddress::Ipv4(arp_target(s)))
    &&& be16(s, 6) == arp::OPERATION_REQUEST || be16(s, 6) == arp::OPERATION_REPLY
    &&& arp_source(s).spec_is_unicast()
    &&& s.subrange(8, 14) != broadcast_octets()
    &&& s[8] % 2 == 0
    &&& iface.spec_in_same_network(IpAddress::Ipv4(arp_source(s)))
}

/// The IPv4 address of the sender of an ARP packet.
pub open spec fn arp_source(s: Seq<u8>) -> ipv4::Address {
    ipv4::Address { bits: be32(s, 14) as u32 }
}

/// The IPv4 address that an ARP packet is for.
pub open spec fn arp_target(s: Seq<u8>) -> ipv4::Address {
    ipv4::Address { bits: be32(s, 24) as u32 }
}

/// The frame that answers an ARP request.
pub open spec fn arp_reply(hardware_addr: Seq<u8>, s: Seq<u8>) -> Seq<u8> {
    ethernet_frame(
        s.subrange(8, 14),
        hardware_addr,
        EtherType(ETHERTYPE_ARP),
        arp::octets(
            arp::OPERATION_REPLY,
            hardware_addr,
            arp_target(s),
            s.subrange(8, 14),
            arp_source(s),
        ),
    )
}

/// What is to be sent to ask for a neighbor.
pub enum Solicitation {
    /// A frame, for the device.
    Frame(Vec<u8>),
    /// An IPv6 packet to a multicast group.
    Packet {
        /// The destination of the packet.
        dst_addr: ipv6::Address,
        /// The packet.
        buf: Vec<u8>,
    },
    /// There is no address to ask from.
    Nothing,
}

/// What a neighbor solicitation leads to.
pub struct SolicitIngress {
    /// The link-layer address of the sender, if the solicitation carries it.
    pub learned: Option<HardwareAddress>,
    /// The packet that answers the sender.
    pub reply: Option<Vec<u8>>,
}

/// The address that a neighbor discovery message is about.
pub open spec fn ndisc_target(s: Seq<u8>) -> ipv6::Address {
    ipv6::Address { bits: be128(s, 8) as u128 }
}

/// Whether the link-layer address option of a neighbor discovery message is acceptable:
/// absent, or an unicast address of the medium, in a message about an unicast address.
pub open spec fn lladdr_accepted(medium: Medium, s: Seq<u8>, option_type: u8) -> bool {
    match scan(s.skip(24), 0, option_type, None) {
        None => false,
        Some(None) => true,
        Some(Some(octets)) => {
            &&& raw_len(medium) == Some(octets.len())
            &&& unicast_octets(medium, octets)
            &&& ndisc_target(s).spec_is_unicast()
        },
    }
}

/// Whether the octets are an unicast address of the medium.
pub open spec fn unicast_octets(medium: Medium, octets: Seq<u8>) -> bool {
    medium == Medium::Ethernet ==> octets != broadcast_octets() && octets[0] % 2 == 0
}

/// The link-layer address that the option of a neighbor discovery message carries, if it has
/// the option.
pub open spec fn is_lladdr_of(
    medium: Medium,
    s: Seq<u8>,
    option_type: u8,
    learned: Option<HardwareAddress>,
) -> bool {
    match scan(s.skip(24), 0, option_type, None) {
        Some(Some(octets)) => learned matches Some(addr) && addr@ == octets && addr.spec_medium()
            == medium,
        _ => learned is None,
    }
}

/// Whether a neighbor solicitation is answered: it was sent to the solicited-node group of an
/// address of ours or to an address of ours, and asks for an address of ours.
pub open spec fn solicit_answered(iface: IfaceState, dst_addr: ipv6::Address, s: Seq<u8>) -> bool {
    &&& iface.spec_has_solicited_node(dst_addr) || iface.spec_has_ip_addr(IpAddress::Ipv6(dst_addr))
    &&& iface.spec_has_ip_addr(IpAddress::Ipv6(ndisc_target(s)))
}

/// Whether a neighbor advertisement has the "override" flag.
pub open spec fn overrides(s: Seq<u8>) -> bool {
    s[4] / control6::FLAG_OVERRIDE % 2 == 1
}

/// Whether `solicitation` asks for the neighbor `addr`.
pub open spec fn is_solicitation(
    iface: IfaceState,
    addr: IpAddress,
    source_v4: Option<ipv4::Address>,
    source_v6: ipv6::Address,
    solicitation: Solicitation,
) -> bool {
    match addr {
        IpAddress::Ipv4(target) => match source_v4 {
            Some(source) => solicitation matches Solicitation::Frame(frame) && frame@
                == arp_request(iface.hardware_addr@, source, target),
            None => solicitation is Nothing,
        },
        IpAddress::Ipv6(target) => solicitation matches Solicitation::Packet { dst_addr, buf }
            && dst_addr == target.spec_solicited_node() && buf@ == ndisc_packet(
            ndisc_message(
                control6::NEIGHBOR_SOLICIT,
                0,
                target,
                SOURCE_LINK_LAYER_ADDR,
                iface.hardware_addr@,
            ),
            source_v6,
            target.spec_solicited_node(),
            iface.checksum.icmpv6.tx,
        ),
    }
}

/// The link-layer address option of a neighbor discovery message, checked. `None` if the
/// message is to be dropped.
fn checked_lladdr(medium: Medium, message: &[u8], option_type: u8) -> (lladdr: Option<
    Option<HardwareAddress>,
>)
    requires
        message@.len() >= 24,
    ensures
        lladdr is Some <==> lladdr_accepted(medium, message@, option_type),
        lladdr matches Some(learned) ==> is_lladdr_of(medium, message@, option_type, learned),
{
    let target_addr = ipv6::Address { bits: read_u128(message, 8) };
    let len: usize = message.len();
    let options: &[u8] = &message[24..len];
    assert(options@ =~= message@.skip(24));
    match ndisc_lladdr_option(options, option_type) {
        Ok(Some(raw)) => match raw.parse(medium) {
            Ok(addr) => if !addr.is_unicast() || !target_addr.x_is_unicast() {
                None
            } else {
                Some(Some(addr))
            },
            Err(_) => None,
        },
        Ok(None) => Some(None),
        Err(_) => None,
    }
}

impl IfaceState {
    /// Process an ARP packet. `None` if it is dropped.
    ///
    /// The neighbor is learned from any ARP packet aimed at us (both request or response). We
    /// learn from requests too because if someone is requesting our address they are probably
    /// going to talk to us, so we avoid having to request their address when we later reply
    /// to them.
    pub fn process_arp(&self, buf: &[u8]) -> (ingress: Option<ArpIngress>)
        requires
            self.hardware_addr is Ethernet,
        ensures
            ingress is Some <==> arp_accepted(*self, buf@),
            ingress matches Some(i) ==> {
                &&& i.addr == arp_source(buf@)
                &&& i.hardware_addr@ == buf@.subrange(8, 14)
                &&& i.reply is Some <==> be16(buf@, 6) == arp::OPERATION_REQUEST
                &&& i.reply matches Some(frame) ==> frame@ == arp_reply(self.hardware_addr@, buf@)
            },
    {
        let message = match arp::Message::parse(buf) {
            Some(message) => message,
            None => return None,
        };
        let target_addr = message.target_protocol_addr;
        let source_addr = message.source_protocol_addr;
        let source_hw = message.source_hardware_addr;
        assert(target_addr == arp_target(buf@));
        assert(source_addr == arp_source(buf@));
        assert(source_hw@[0] == buf@[8]);
        // Only process ARP packets for us.
        if !self.has_ip_addr(IpAddress::Ipv4(target_addr)) {
            return None;
        }
        // Only process REQUEST and RESPONSE.
        if message.operation != arp::OPERATION_REQUEST && message.operation
            != arp::OPERATION_REPLY {
            return None;
        }
        // Discard packets with non-unicast source addresses.
        if !source_addr.x_is_unicast() || !source_hw.is_unicast() {
            return None;
        }
        if !self.in_same_network(&IpAddress::Ipv4(source_addr)) {
            return None;
        }
        let reply = if message.operation == arp::OPERATION_REQUEST {
            let answer = arp::Message {
                operation: arp::OPERATION_REPLY,
                source_hardware_addr: self.ethernet_addr(),
                source_protocol_addr: target_addr,
                target_hardware_addr: source_hw,
                target_protocol_addr: source_addr,
            };
            Some(self.transmit_ethernet(source_hw, answer.emit(), EtherType(ETHERTYPE_ARP)))
        } else {
            None
        };
        Some(ArpIngress { addr: source_addr, hardware_addr: source_hw, reply })
    }

    /// The packet that tells `dst_addr` that the address `target_addr` is at this interface.
    #[verifier::rlimit(40)]
    fn solicited_advert(&self, target_addr: ipv6::Address, dst_addr: ipv6::Address) -> (packet: Vec<
        u8,
    >)
        ensures
            packet@ == ndisc_packet(
                ndisc_message(
                    control6::NEIGHBOR_ADVERT,
                    control6::FLAG_SOLICITED,
                    target_addr,
                    TARGET_LINK_LAYER_ADDR,
                    self.hardware_addr@,
                ),
                target_addr,
                dst_addr,
                self.checksum.icmpv6.tx,
            ),
            be128(packet@, 8) == target_addr.bits,
            be128(packet@, 24) == dst_addr.bits,
            packet@[40] == 136 && packet@[44] == 0x40,
            be128(packet@, 48) == target_addr.bits,
            packet@[64] == 2,
            self.hardware_addr@.is_prefix_of(packet@.skip(66)),
    {
        let advert: Vec<u8> = build_ndisc(
            control6::NEIGHBOR_ADVERT,
            control6::FLAG_SOLICITED,
            target_addr,
            TARGET_LINK_LAYER_ADDR,
            self.hardware_addr,
        );
        proof {
            law_ndisc_octets(
                control6::NEIGHBOR_ADVERT,
                control6::FLAG_SOLICITED,
                target_addr,
                TARGET_LINK_LAYER_ADDR,
                self.hardware_addr@,
                target_addr,
                dst_addr,
                self.checksum.icmpv6.tx,
            );
        }
        self.transmit_ndisc(advert, target_addr, dst_addr)
    }

    /// Process a neighbor solicitation. `None` if it is dropped.
    ///
    /// RFC 4861 §7.2.3: the destination is either the target's solicited-node multicast
    /// (address resolution) or one of our unicast addresses (a unicast NUD probe). Both are
    /// answered.
    pub fn process_ndisc_solicit(
        &self,
        src_addr: ipv6::Address,
        dst_addr: ipv6::Address,
        message: &[u8],
    ) -> (ingress: Option<SolicitIngress>)
        ensures
            ingress is Some <==> message@.len() >= 24 && message@[1] == 0 && lladdr_accepted(
                self.medium,
                message@,
                SOURCE_LINK_LAYER_ADDR,
            ),
            ingress matches Some(i) ==> {
                &&& is_lladdr_of(self.medium, message@, SOURCE_LINK_LAYER_ADDR, i.learned)
                &&& i.reply is Some <==> solicit_answered(*self, dst_addr, message@)
                &&& i.reply matches Some(packet) ==> packet@ == ndisc_packet(
                    ndisc_message(
                        control6::NEIGHBOR_ADVERT,
                        control6::FLAG_SOLICITED,
                        ndisc_target(message@),
                        TARGET_LINK_LAYER_ADDR,
                        self.hardware_addr@,
                    ),
                    ndisc_target(message@),
                    src_addr,
                    self.checksum.icmpv6.tx,
                )
            },
            ingress matches Some(i) ==> (i.reply matches Some(packet) ==> {
                &&& be128(packet@, 8) == be128(message@, 8)
                &&& be128(packet@, 24) == src_addr.bits
                &&& packet@[40] == 136 && packet@[44] == 0x40
                &&& be128(packet@, 48) == be128(message@, 8)
                &&& packet@[64] == 2
                &&& self.hardware_addr@.is_prefix_of(packet@.skip(66))
            }),
    {
        if message.len() < control6::NEIGHBOR_HEADER_LEN || message[1] != 0 {
            return None;
        }
        let target_addr = ipv6::Address { bits: read_u128(message, 8) };
        let learned = match checked_lladdr(self.medium, message, SOURCE_LINK_LAYER_ADDR) {
            Some(learned) => learned,
            None => return None,
        };
        let reply = if (self.has_solicited_node(dst_addr) || self.has_ip_addr(
            IpAddress::Ipv6(dst_addr),
        )) && self.has_ip_addr(IpAddress::Ipv6(target_addr)) {
            Some(self.solicited_advert(target_addr, src_addr))
        } else {
            None
        };
        Some(SolicitIngress { learned, reply })
    }

    /// Process a neighbor advertisement: the link-layer address that its sender is learned to
    /// have. `known` says whether the neighbor cache already holds an address for the sender,
    /// which only an advertisement with the "override" flag replaces.
    pub fn process_ndisc_advert(&self, message: &[u8], known: bool) -> (learned: Option<
        HardwareAddress,
    >)
        ensures
            learned is Some <==> message@.len() >= 24 && message@[1] == 0 && lladdr_accepted(
                self.medium,
                message@,
                TARGET_LINK_LAYER_ADDR,
            ) && scan(message@.skip(24), 0, TARGET_LINK_LAYER_ADDR, None) != Some(None::<Seq<u8>>)
                && (overrides(message@) || !known),
            learned is Some ==> is_lladdr_of(
                self.medium,
                message@,
                TARGET_LINK_LAYER_ADDR,
                learned,
            ),
    {
        if message.len() < control6::NEIGHBOR_HEADER_LEN || message[1] != 0 {
            return None;
        }
        let flags: u8 = message[4];
        match checked_lladdr(self.medium, message, TARGET_LINK_LAYER_ADDR) {
            Some(Some(lladdr)) => if flags / control6::FLAG_OVERRIDE % 2 == 1 || !known {
                Some(lladdr)
            } else {
                None
            },
            _ => None,
        }
    }

    /// Build a solicitation (ARP request / NDISC neighbor solicit) for the given address.
    /// `source_v4` and `source_v6` are the addresses of the interface to ask from.
    pub fn solicit_neighbor(
        &self,
        addr: IpAddress,
        source_v4: Option<ipv4::Address>,
        source_v6: ipv6::Address,
    ) -> (solicitation: Solicitation)
        requires
            addr is Ipv4 ==> self.hardware_addr is Ethernet,
            addr is Ipv6 ==> addr.spec_is_unicast(),
        ensures
            is_solicitation(*self, addr, source_v4, source_v6, solicitation),
    {
        match addr {
            IpAddress::Ipv4(target) => match self.transmit_arp_request(target, source_v4) {
                Some(frame) => Solicitation::Frame(frame),
                None => Solicitation::Nothing,
            },
            IpAddress::Ipv6(target) => Solicitation::Packet {
                dst_addr: target.solicited_node(),
                buf: self.transmit_ndisc_solicit(target, source_v6),
            },
        }
    }
}

/// What the retransmission timer of a neighbor asks for.
#[derive(Debug, Clone, Copy, PartialEq, Eq, Structural)]
pub enum ProbeEvent {
    /// The neighbor is still unresolved: solicit it again.
    Retransmit(IpAddress),
    /// The resolution failed.
    Failed(IpAddress),
}

/// What is to be done about a neighbor that did not answer.
pub enum ProbeAction {
    /// Send a solicitation.
    Solicit(Solicitation),
    /// Answer the packets that were queued on the failed resolution with an ICMP destination
    /// unreachable error (RFC 4861 §7.3.3).
    Unreachable(Vec<PendingPacket>),
}

impl Stack {
    /// Act on the retransmission timer of a neighbor: retransmit the solicitation, or fail the
    /// resolution that exhausted its probes.
    pub fn poll_neighbor_timer(
        &mut self,
        iface: IfaceHandle,
        event: ProbeEvent,
        source_v4: Option<ipv4::Address>,
        source_v6: ipv6::Address,
    ) -> (action: ProbeAction)
        requires
            old(self).live(iface),
            event matches ProbeEvent::Retransmit(addr) ==> match addr {
                IpAddress::Ipv4(_) => old(self).spec_iface(iface).hardware_addr is Ethernet,
                IpAddress::Ipv6(_) => addr.spec_is_unicast(),
            },
        ensures
            match event {
                ProbeEvent::Retransmit(addr) => {
                    &&& *final(self) == *old(self)
                    &&& action matches ProbeAction::Solicit(solicitation) && is_solicitation(
                        old(self).spec_iface(iface),
                        addr,
                        source_v4,
                        source_v6,
                        solicitation,
                    )
                },
                ProbeEvent::Failed(addr) => {
                    &&& action matches ProbeAction::Unreachable(packets) && packets@ == matching(
                        old(self).pending@,
                        (NeighborKey { iface, addr }),
                    )
                    &&& final(self).pending@ == others(
                        old(self).pending@,
                        (NeighborKey { iface, addr }),
                    )
                    &&& *final(self) == (Stack { pending: final(self).pending, ..*old(self) })
                },
            },
    {
        match event {
            ProbeEvent::Retransmit(addr) => ProbeAction::Solicit(
                self.ifaces.get(iface.index).solicit_neighbor(addr, source_v4, source_v6),
            ),
            ProbeEvent::Failed(addr) => {
                let key = NeighborKey { iface, addr };
                ProbeAction::Unreachable(self.pending.take_matching(&key))
            },
        }
    }
}

/// Whether an IPv4 packet carries an ICMPv4 error message.
pub open spec fn carries_error4(s: Seq<u8>) -> bool {
    let header = ipv4::header(s);
    &&& header.next_header.0 == ICMP
    &&& header.header_len < s.len()
    &&& control4::spec_is_error(s[header.header_len])
}

/// Whether an IPv6 packet carries an ICMPv6 error message.
pub open spec fn carries_error6(s: Seq<u8>) -> bool {
    &&& ipv6::header(s).next_header.0 == ICMPV6
    &&& ipv6::HEADER_LEN < s.len()
    &&& control6::spec_is_error(s[40])
}

/// Query whether an IPv4 packet carries an ICMPv4 error message.
fn is_error4(packet: &ipv4::Packet<'_>) -> (r: bool)
    requires
        packet@.len() >= 20,
    ensures
        r == carries_error4(packet@),
{
    let header_len: usize = packet.header_len() as usize;
    packet.next_header().0 == ICMP && header_len < packet.buffer.len() && control4::is_error(
        packet.buffer[header_len],
    )
}

/// The ICMP destination unreachable error about an IPv4 packet whose next hop did not answer,
/// from `src_addr` to the sender of the packet.
pub open spec fn failure4(s: Seq<u8>, src_addr: ipv4::Address) -> Seq<u8> {
    ipv4_packet(
        src_addr,
        ipv4::header(s).src_addr,
        Protocol(ICMP),
        64,
        false,
        error4(s, control4::DST_UNREACHABLE, control4::HOST_UNREACHABLE, false),
    )
}

/// The ICMPv6 destination unreachable error about an IPv6 packet whose next hop did not answer,
/// from `src_addr` to the sender of the packet.
pub open spec fn failure6(s: Seq<u8>, src_addr: ipv6::Address) -> Seq<u8> {
    let dst_addr = ipv6::header(s).src_addr;
    let message = error6(
        s,
        src_addr,
        dst_addr,
        control6::DST_UNREACHABLE,
        control6::ADDR_UNREACHABLE,
        0,
        false,
    );
    ipv6_header(src_addr, dst_addr, Protocol(ICMPV6), 64, message.len()) + message
}

impl IfaceState {
    /// Build an ICMP destination unreachable error for a packet whose neighbor resolution
    /// failed, to be delivered back through local ingress processing.
    ///
    /// Queued packets are locally generated (nothing is forwarded), so the sender the error
    /// must reach is a local socket. The error is fed into ingress, where the erring TCP/UDP
    /// socket, or a raw-socket ping application, receives it, rather than transmitted to the
    /// wire, so no device is going to fill its checksums in. `orig` is the queued packet, a
    /// whole IP packet. `source_v4` and `source_v6` are the addresses of the interface that the
    /// error comes from.
    ///
    /// No error is generated about an ICMP error (RFC 1122 §3.2.2, RFC 4443 §2.4), nor about a
    /// packet that was not sent from an unicast address.
    pub fn deliver_neighbor_failure_error(
        &self,
        orig: Vec<u8>,
        source_v4: Option<ipv4::Address>,
        source_v6: ipv6::Address,
    ) -> (error: Option<(IpVersion, Vec<u8>)>)
        requires
            version_of(orig@) == Some(IpVersion::Ipv4) ==> orig@.len() >= 20,
            version_of(orig@) == Some(IpVersion::Ipv6) ==> orig@.len() >= 40,
        ensures
            match version_of(orig@) {
                Some(IpVersion::Ipv4) => {
                    &&& error is Some <==> !carries_error4(orig@) && self.spec_is_unicast_v4(
                        ipv4::header(orig@).src_addr,
                    ) && source_v4 is Some
                    &&& error matches Some((version, packet)) ==> version is Ipv4 && packet@
                        == failure4(orig@, source_v4->0)
                },
                Some(IpVersion::Ipv6) => {
                    &&& error is Some <==> !carries_error6(orig@) && ipv6::header(
                        orig@,
                    ).src_addr.spec_is_unicast()
                    &&& error matches Some((version, packet)) ==> version is Ipv6 && packet@
                        == failure6(orig@, source_v6)
                },
                None => error is None,
            },
    {
        match IpVersion::of_packet(orig.as_slice()) {
            Ok(IpVersion::Ipv4) => match self.failure_error4(orig, source_v4) {
                Some(error) => Some((IpVersion::Ipv4, error)),
                None => None,
            },
            Ok(IpVersion::Ipv6) => match failure_error6(orig, source_v6) {
                Some(error) => Some((IpVersion::Ipv6, error)),
                None => None,
            },
            Err(_) => None,
        }
    }

    /// The error about an IPv4 packet whose next hop did not answer, if there is one.
    fn failure_error4(&self, orig: Vec<u8>, source: Option<ipv4::Address>) -> (error: Option<
        Vec<u8>,
    >)
        requires
            orig@.len() >= 20,
        ensures
            error is Some <==> !carries_error4(orig@) && self.spec_is_unicast_v4(
                ipv4::header(orig@).src_addr,
            ) && source is Some,
            error matches Some(packet) ==> packet@ == failure4(orig@, source->0),
    {
        let mut orig: Vec<u8> = orig;
        let checksum_caps = ChecksumCapabilities::default();
        let packet = ipv4::Packet::new_unchecked(orig.as_mut_slice());
        let src_addr = packet.src_addr();
        // Never generate an ICMP error about an ICMP error (RFC 1122 §3.2.2).
        if is_error4(&packet) || !self.is_unicast_v4(src_addr) {
            return None;
        }
        let reply_src = match source {
            Some(addr) => addr,
            None => return None,
        };
        let mut reply: Vec<u8> = build_icmpv4_error(
            orig.as_slice(),
            control4::DST_UNREACHABLE,
            control4::HOST_UNREACHABLE,
            &checksum_caps,
        );
        push_ipv4_header(&mut reply, reply_src, src_addr, Protocol(ICMP), 64, &checksum_caps);
        Some(reply)
    }
}

/// The error about an IPv6 packet whose next hop did not answer, if there is one.
fn failure_error6(orig: Vec<u8>, source: ipv6::Address) -> (error: Option<Vec<u8>>)
    requires
        orig@.len() >= 40,
    ensures
        error is Some <==> !carries_error6(orig@) && ipv6::header(
            orig@,
        ).src_addr.spec_is_unicast(),
        error matches Some(packet) ==> packet@ == failure6(orig@, source),
{
    let mut orig: Vec<u8> = orig;
    let packet = ipv6::Packet::new_unchecked(orig.as_mut_slice());
    let src_addr = packet.src_addr();
    let next_header = packet.next_header();
    // Never generate an ICMP error about an ICMP error (RFC 4443 §2.4).
    if next_header.0 == ICMPV6 && orig.len() > 40 && control6::is_error(orig[40]) {
        return None;
    }
    if !src_addr.x_is_unicast() {
        return None;
    }
    let mut reply: Vec<u8> = build_icmpv6_error(
        orig.as_slice(),
        &source,
        &src_addr,
        control6::DST_UNREACHABLE,
        control6::ADDR_UNREACHABLE,
        0,
        &ChecksumCapabilities::default(),
    );
    push_ipv6_header(&mut reply, source, src_addr, Protocol(ICMPV6), 64);
    Some(reply)
}

/// The packet that asks for an IPv6 neighbor goes to a multicast group, so sending it never
/// waits for a neighbor in turn.
pub proof fn law_solicitation_is_not_parked(
    iface: IfaceState,
    target: ipv6::Address,
    next_hop: IpAddress,
    answer: NeighborAnswer,
    lookup: NeighborLookup,
)
    requires
        is_lookup(
            iface,
            IpAddress::Ipv6(target.spec_solicited_node()),
            next_hop,
            answer,
            lookup,
        ),
    ensures
        lookup is Found,
{
}

/// A host that accepts the ARP request for its address answers with a frame that the host that
/// asked accepts, and that tells it the hardware address of the host that answers.
pub proof fn law_arp_resolves(
    asking: IfaceState,
    answering: IfaceState,
    src_addr: ipv4::Address,
    target_addr: ipv4::Address,
)
    requires
        asking.hardware_addr is Ethernet,
        answering.hardware_addr is Ethernet,
    ensures
        ({
            let request = arp_request(asking.hardware_addr@, src_addr, target_addr).skip(14);
            let reply = arp_reply(answering.hardware_addr@, request);
            &&& frame_accepted(answering, arp_request(asking.hardware_addr@, src_addr, target_addr))
            &&& frame_accepted(asking, reply)
            &&& arp::well_formed(request)
            &&& arp_source(request) == src_addr
            &&& arp_target(request) == target_addr
            &&& arp::well_formed(reply.skip(14))
            &&& be16(reply.skip(14), 6) == arp::OPERATION_REPLY
            &&& arp_source(reply.skip(14)) == target_addr
            &&& arp_target(reply.skip(14)) == src_addr
            &&& reply.skip(14).subrange(8, 14) == answering.hardware_addr@
        }),
{
    let own = asking.hardware_addr@;
    let other = answering.hardware_addr@;
    lemma_arp_payload(
        broadcast_octets(),
        own,
        arp::OPERATION_REQUEST,
        own,
        src_addr,
        broadcast_octets(),
        target_addr,
    );
    lemma_arp_payload(own, other, arp::OPERATION_REPLY, other, target_addr, own, src_addr);
}

/// What the payload of a frame with an ARP packet holds.
proof fn lemma_arp_payload(
    dst_hw: Seq<u8>,
    src_hw: Seq<u8>,
    operation: u16,
    source_hw: Seq<u8>,
    source: ipv4::Address,
    target_hw: Seq<u8>,
    target: ipv4::Address,
)
    requires
        dst_hw.len() == 6,
        src_hw.len() == 6,
        source_hw.len() == 6,
        target_hw.len() == 6,
    ensures
        ({
            let frame = ethernet_frame(
                dst_hw,
                src_hw,
                EtherType(ETHERTYPE_ARP),
                arp::octets(operation, source_hw, source, target_hw, target),
            );
            let s = frame.skip(14);
            &&& frame.len() >= 14
            &&& frame.take(6) == dst_hw
            &&& frame.subrange(6, 12) == src_hw
            &&& be16(frame, 12) == 0x0806
            &&& arp::well_formed(s)
            &&& be16(s, 6) == operation
            &&& s.subrange(8, 14) == source_hw
            &&& s.subrange(18, 24) == target_hw
            &&& arp_source(s) == source
            &&& arp_target(s) == target
        }),
{
    reveal(arp::octets);
    let octets = arp::octets(operation, source_hw, source, target_hw, target);
    let frame = ethernet_frame(dst_hw, src_hw, EtherType(ETHERTYPE_ARP), octets);
    assert(frame.take(6) =~= dst_hw);
    assert(frame.skip(14) =~= octets);
    assert(frame.subrange(6, 12) =~= src_hw);
    assert(octets.subrange(8, 14) =~= source_hw);
    assert(octets.subrange(18, 24) =~= target_hw);
    lemma_be32_octets32(source.bits as int);
    lemma_be32_octets32(target.bits as int);
    assert(octets.subrange(14, 18) =~= octets32(source.bits as int));
    assert(octets.subrange(24, 28) =~= octets32(target.bits as int));
    assert(forall|k: int| 0 <= k < 4 ==> octets[14 + k] == #[trigger] octets.subrange(14, 18)[k]);
    assert(forall|k: int| 0 <= k < 4 ==> octets[24 + k] == #[trigger] octets.subrange(24, 28)[k]);
}

/// A neighbor discovery message that was built tells the host that receives it what it is about
/// and the link-layer address of its sender, and passes the checksum validation.
pub proof fn law_ndisc_resolves(
    msg_type: u8,
    flags: u8,
    target_addr: ipv6::Address,
    option_type: u8,
    hardware_addr: HardwareAddress,
    src_addr: ipv6::Address,
    dst_addr: ipv6::Address,
)
    requires
        raw_len(hardware_addr.spec_medium()) == Some(hardware_addr@.len()),
        hardware_addr.spec_is_unicast(),
        target_addr.spec_is_unicast(),
    ensures
        ({
            let message = ndisc_message(
                msg_type,
                flags,
                target_addr,
                option_type,
                hardware_addr@,
            );
            let s = control6::with_checksum(message, src_addr, dst_addr, false);
            &&& s.len() >= 24
            &&& s[0] == msg_type
            &&& s[1] == 0
            &&& s[4] == flags
            &&& ndisc_target(s) == target_addr
            &&& lladdr_accepted(hardware_addr.spec_medium(), s, option_type)
            &&& scan(s.skip(24), 0, option_type, None) == Some(Some(hardware_addr@))
            &&& control6::checksum_ok(s, src_addr, dst_addr)
        }),
{
    let message = ndisc_message(msg_type, flags, target_addr, option_type, hardware_addr@);
    let s = control6::with_checksum(message, src_addr, dst_addr, false);
    let octets = ipv6::address_octets(target_addr.bits);
    ipv6::lemma_octets_len(target_addr);
    lemma_be128_octets128(target_addr.bits as int);
    control6::law_filled_checksum(message, src_addr, dst_addr);
    law_lladdr_round_trip(hardware_addr, option_type);
    assert(message.len() >= 24);
    assert(forall|k: int| 4 <= k < message.len() ==> #[trigger] s[k] == message[k]);
    assert(s.skip(24) =~= lladdr_option(option_type, hardware_addr@));
    ipv6::lemma_be128_shift(s, 8, octets);
}

/// Which ARP packets are processed, said of their octets: requests and replies that resolve IPv4
/// addresses to Ethernet addresses, for an address of the interface, from a unicast address on a
/// network of the interface and a hardware address that is no group.
pub proof fn law_arp_accepted(iface: IfaceState, s: Seq<u8>)
    ensures
        arp_accepted(iface, s) <==> {
            let source = ipv4::Address { bits: be32(s, 14) as u32 };
            let target = ipv4::Address { bits: be32(s, 24) as u32 };
            &&& s.len() >= 28
            &&& s.take(6) == seq![0u8, 1, 8, 0, 6, 4]
            &&& s[6] == 0
            &&& s[7] == 1 || s[7] == 2
            &&& s[8] % 2 == 0
            &&& source.spec_is_unicast()
            &&& iface.spec_in_same_network(IpAddress::Ipv4(source))
            &&& iface.spec_has_ip_addr(IpAddress::Ipv4(target))
        },
{
    if s.len() >= 28 {
        let t = s.take(6);
        assert(t[0] == s[0] && t[1] == s[1] && t[2] == s[2] && t[3] == s[3] && t[4] == s[4] && t[5]
            == s[5]);
        assert(s.subrange(8, 14)[0] == s[8]);
        if arp_accepted(iface, s) {
            assert(t =~= seq![0u8, 1, 8, 0, 6, 4]);
        }
        if t == seq![0u8, 1, 8, 0, 6, 4] {
            assert(s[0] == 0 && s[1] == 1 && s[2] == 8 && s[3] == 0 && s[4] == 6 && s[5] == 4);
        }
    }
}

/// Two hosts on one network find each other: the host with the address that is asked for accepts
/// the request and learns the host that asks, and its answer goes to that host alone, which
/// accepts it and learns the hardware address that it asked for.
pub proof fn law_arp_exchange(
    asking: IfaceState,
    answering: IfaceState,
    src_addr: ipv4::Address,
    target_addr: ipv4::Address,
)
    requires
        asking.hardware_addr is Ethernet,
        answering.hardware_addr is Ethernet,
        asking.hardware_addr@[0] % 2 == 0,
        answering.hardware_addr@[0] % 2 == 0,
        src_addr.spec_is_unicast(),
        target_addr.spec_is_unicast(),
        asking.spec_has_ip_addr(IpAddress::Ipv4(src_addr)),
        asking.spec_in_same_network(IpAddress::Ipv4(target_addr)),
        answering.spec_has_ip_addr(IpAddress::Ipv4(target_addr)),
        answering.spec_in_same_network(IpAddress::Ipv4(src_addr)),
    ensures
        ({
            let request = arp_request(asking.hardware_addr@, src_addr, target_addr);
            let reply = arp_reply(answering.hardware_addr@, request.skip(14));
            &&& frame_accepted(answering, request)
            &&& request.subrange(6, 12) == asking.hardware_addr@
            &&& be16(request, 12) == 0x0806
            &&& arp_accepted(answering, request.skip(14))
            &&& be16(request.skip(14), 6) == 1
            &&& arp_source(request.skip(14)) == src_addr
            &&& request.skip(14).subrange(8, 14) == asking.hardware_addr@
            &&& reply.take(6) == asking.hardware_addr@
            &&& reply.subrange(6, 12) == answering.hardware_addr@
            &&& be16(reply, 12) == 0x0806
            &&& arp_accepted(asking, reply.skip(14))
            &&& be16(reply.skip(14), 6) == 2
            &&& arp_source(reply.skip(14)) == target_addr
            &&& reply.skip(14).subrange(8, 14) == answering.hardware_addr@
            &&& reply.skip(14).subrange(18, 24) == asking.hardware_addr@
        }),
{
    let own = asking.hardware_addr@;
    let other = answering.hardware_addr@;
    law_arp_resolves(asking, answering, src_addr, target_addr);
    lemma_arp_payload(
        broadcast_octets(),
        own,
        arp::OPERATION_REQUEST,
        own,
        src_addr,
        broadcast_octets(),
        target_addr,
    );
    lemma_arp_payload(own, other, arp::OPERATION_REPLY, other, target_addr, own, src_addr);
    let request = arp_request(own, src_addr, target_addr);
    let reply = arp_reply(other, request.skip(14));
    assert(request.skip(14)[8] == request.skip(14).subrange(8, 14)[0]);
    assert(reply.skip(14)[8] == reply.skip(14).subrange(8, 14)[0]);
    law_arp_accepted(answering, request.skip(14));
    law_arp_accepted(asking, reply.skip(14));
    assert(broadcast_octets()[0] % 2 == 1);
}

/// When a neighbor solicitation is answered: it asks for an address of the interface, and was
/// sent to an address of the interface, or to the group of the addresses that end like one of
/// them.
pub proof fn law_solicit_answered(iface: IfaceState, dst_addr: ipv6::Address, s: Seq<u8>)
    ensures
        solicit_answered(iface, dst_addr, s) ==> iface.spec_has_ip_addr(
            IpAddress::Ipv6(ipv6::Address { bits: be128(s, 8) as u128 }),
        ),
        forall|i: int|
            #![trigger iface.ip_addrs@[i]]
            0 <= i < iface.ip_addrs@.len() ==> (iface.ip_addrs@[i] matches IpCidr::Ipv6(c) ==> {
                let own = c.spec_address();
                own.spec_is_unicast() && own.bits == be128(s, 8) && (dst_addr == own
                    || dst_addr.bits == 0xff02_0000_0000_0000_0000_0001_ff00_0000 + own.bits
                    % 0x100_0000) ==> solicit_answered(iface, dst_addr, s)
            }),
        solicit_answered(iface, dst_addr, s) ==> exists|i: int|
            {
                &&& 0 <= i < iface.ip_addrs@.len()
                &&& #[trigger] iface.ip_addrs@[i] matches IpCidr::Ipv6(c)
                &&& dst_addr == c.spec_address() || dst_addr.bits
                    == 0xff02_0000_0000_0000_0000_0001_ff00_0000 + c.spec_address().bits
                    % 0x100_0000
            },
{
    assert forall|i: int|
        #![trigger iface.ip_addrs@[i]]
        0 <= i < iface.ip_addrs@.len() implies (iface.ip_addrs@[i] matches IpCidr::Ipv6(c) ==> {
        let own = c.spec_address();
        own.spec_is_unicast() && own.bits == be128(s, 8) && (dst_addr == own || dst_addr.bits
            == 0xff02_0000_0000_0000_0000_0001_ff00_0000 + own.bits % 0x100_0000)
            ==> solicit_answered(iface, dst_addr, s)
    }) by {
        if let IpCidr::Ipv6(c) = iface.ip_addrs@[i] {
            let own = c.spec_address();
            if own.spec_is_unicast() && own.bits == be128(s, 8) && (dst_addr == own || dst_addr.bits
                == 0xff02_0000_0000_0000_0000_0001_ff00_0000 + own.bits % 0x100_0000) {
                assert(ndisc_target(s) == own);
                assert(iface.ip_addrs@[i].spec_address() == IpAddress::Ipv6(own));
                assert(iface.spec_has_ip_addr(IpAddress::Ipv6(own)));
                if dst_addr != own {
                    assert(own.spec_solicited_node() == dst_addr);
                    assert(is_solicited_node_of(iface.ip_addrs@[i], dst_addr));
                }
            }
        }
    }
    if solicit_answered(iface, dst_addr, s) {
        if iface.spec_has_solicited_node(dst_addr) {
            let i = choose|i: int|
                0 <= i < iface.ip_addrs@.len() && is_solicited_node_of(
                    #[trigger] iface.ip_addrs@[i],
                    dst_addr,
                );
            assert(iface.ip_addrs@[i] is Ipv6);
        } else {
            let i = choose|i: int|
                0 <= i < iface.ip_addrs@.len() && #[trigger] iface.ip_addrs@[i].spec_address()
                    == IpAddress::Ipv6(dst_addr);
            assert(iface.ip_addrs@[i] is Ipv6);
        }
    }
}

/// The link-layer address option of a message is acceptable if there is none. If there is one, it
/// holds a unicast address of the length that the medium has, and the message is about a unicast
/// address. The address that is learned is the one in the option.
pub proof fn law_lladdr_accepted(
    medium: Medium,
    s: Seq<u8>,
    option_type: u8,
    learned: Option<HardwareAddress>,
)
    ensures
        scan(s.skip(24), 0, option_type, None) is None ==> !lladdr_accepted(medium, s, option_type),
        scan(s.skip(24), 0, option_type, None) == Some(None::<Seq<u8>>) ==> {
            &&& lladdr_accepted(medium, s, option_type)
            &&& is_lladdr_of(medium, s, option_type, learned) ==> learned is None
        },
        scan(s.skip(24), 0, option_type, None) matches Some(Some(octets)) ==> {
            &&& medium == Medium::Ip ==> !lladdr_accepted(medium, s, option_type)
            &&& medium == Medium::Ethernet ==> (lladdr_accepted(medium, s, option_type) ==>
                octets.len() == 6 && octets[0] % 2 == 0)
            &&& medium == Medium::Ethernet && octets.len() == 6 && octets[0] % 2 == 0
                && ndisc_target(s).spec_is_unicast() ==> lladdr_accepted(medium, s, option_type)
            &&& medium == Medium::Ieee802154 ==> (lladdr_accepted(medium, s, option_type) <==>
                octets.len() == 8 && ndisc_target(s).spec_is_unicast())
            &&& lladdr_accepted(medium, s, option_type) ==> ndisc_target(s).spec_is_unicast()
            &&& is_lladdr_of(medium, s, option_type, learned) ==> (learned matches Some(addr)
                && addr@ == octets && addr.spec_medium() == medium)
        },
{
    if let Some(Some(octets)) = scan(s.skip(24), 0, option_type, None) {
        assert(broadcast_octets()[0] % 2 == 1);
    }
}

/// The "override" flag is the third highest bit of the octet behind the checksum.
pub proof fn law_overrides(s: Seq<u8>)
    ensures
        overrides(s) <==> s[4] % 64 >= 32,
{
}

/// Which packets carry an ICMP error, said of their octets: those of protocol 1 whose first octet
/// behind the header is the type of an error, and those of protocol 58 whose first octet behind
/// the header is below 128.
pub proof fn law_carries_error(s: Seq<u8>)
    ensures
        s[9] != 1 ==> !carries_error4(s),
        s[9] == 1 && s[0] % 16 * 4 < s.len() ==> {
            let t = s[s[0] % 16 * 4];
            carries_error4(s) <==> t == 3 || t == 4 || t == 5 || t == 11 || t == 12
        },
        s[6] != 58 ==> !carries_error6(s),
        s[6] == 58 && s.len() > 40 ==> (carries_error6(s) <==> s[40] < 128),
{
}

/// What is sent to ask for a neighbor: an ARP request for an IPv4 address, to everyone on the
/// link, if there is an address to ask from, and a neighbor solicitation for an IPv6 address, to
/// the group that the address is in.
pub proof fn law_solicitation(
    iface: IfaceState,
    addr: IpAddress,
    source_v4: Option<ipv4::Address>,
    source_v6: ipv6::Address,
    solicitation: Solicitation,
)
    requires
        is_solicitation(iface, addr, source_v4, source_v6, solicitation),
        addr is Ipv4 ==> iface.hardware_addr is Ethernet,
        iface.hardware_addr@.len() <= 8,
    ensures
        match addr {
            IpAddress::Ipv4(target) => {
                &&& source_v4 is None ==> solicitation is Nothing
                &&& source_v4 matches Some(source) ==> {
                    &&& solicitation matches Solicitation::Frame(frame)
                    &&& frame@.take(6) == seq![0xffu8, 0xff, 0xff, 0xff, 0xff, 0xff]
                    &&& be16(frame@, 20) == 1
                    &&& arp_source(frame@.skip(14)) == source
                    &&& arp_target(frame@.skip(14)) == target
                }
            },
            IpAddress::Ipv6(target) => {
                &&& solicitation matches Solicitation::Packet { dst_addr, buf }
                &&& dst_addr.bits == 0xff02_0000_0000_0000_0000_0001_ff00_0000 + target.bits
                    % 0x100_0000
                &&& buf@[6] == 58
                &&& buf@[7] == 255
                &&& be128(buf@, 8) == source_v6.bits
                &&& be128(buf@, 24) == dst_addr.bits
                &&& buf@[40] == 135
                &&& be128(buf@, 48) == target.bits
                &&& buf@[64] == 1
                &&& iface.hardware_addr@.is_prefix_of(buf@.skip(66))
            },
        },
{
    match addr {
        IpAddress::Ipv4(target) => {
            if let Some(source) = source_v4 {
                lemma_arp_payload(
                    broadcast_octets(),
                    iface.hardware_addr@,
                    arp::OPERATION_REQUEST,
                    iface.hardware_addr@,
                    source,
                    broadcast_octets(),
                    target,
                );
                let frame = arp_request(iface.hardware_addr@, source, target);
                assert(frame.take(6) =~= seq![0xffu8, 0xff, 0xff, 0xff, 0xff, 0xff]);
                assert(frame.skip(14)[6] == frame[20] && frame.skip(14)[7] == frame[21]);
            }
        },
        IpAddress::Ipv6(target) => {
            law_ndisc_octets(
                control6::NEIGHBOR_SOLICIT,
                0,
                target,
                SOURCE_LINK_LAYER_ADDR,
                iface.hardware_addr@,
                source_v6,
                target.spec_solicited_node(),
                iface.checksum.icmpv6.tx,
            );
        },
    }
}

/// Two hosts find each other over IPv6: the host that has the address that is asked for answers the
/// solicitation, which is sent to the group that the address is in, and learns the host that asks
/// from it. The advertisement that it answers with tells that host its hardware address.
pub proof fn law_ndisc_exchange(
    asking: IfaceState,
    answering: IfaceState,
    i: int,
    src_addr: ipv6::Address,
    target_addr: ipv6::Address,
)
    requires
        0 <= i < answering.ip_addrs@.len(),
        answering.ip_addrs@[i].spec_address() == IpAddress::Ipv6(target_addr),
        target_addr.spec_is_unicast(),
        asking.hardware_addr.spec_is_unicast(),
        answering.hardware_addr.spec_is_unicast(),
        raw_len(asking.hardware_addr.spec_medium()) == Some(asking.hardware_addr@.len()),
        raw_len(answering.hardware_addr.spec_medium()) == Some(answering.hardware_addr@.len()),
        asking.medium == asking.hardware_addr.spec_medium(),
        answering.medium == answering.hardware_addr.spec_medium(),
        asking.medium == answering.medium,
    ensures
        ({
            let group = target_addr.spec_solicited_node();
            let request = control6::with_checksum(
                ndisc_message(135, 0, target_addr, 1, asking.hardware_addr@),
                src_addr,
                group,
                false,
            );
            let advert = control6::with_checksum(
                ndisc_message(136, 0x40, target_addr, 2, answering.hardware_addr@),
                target_addr,
                src_addr,
                false,
            );
            &&& answering.spec_has_solicited_node(group)
            &&& lladdr_accepted(answering.medium, request, SOURCE_LINK_LAYER_ADDR)
            &&& solicit_answered(answering, group, request)
            &&& scan(request.skip(24), 0, SOURCE_LINK_LAYER_ADDR, None) == Some(
                Some(asking.hardware_addr@),
            )
            &&& lladdr_accepted(asking.medium, advert, TARGET_LINK_LAYER_ADDR)
            &&& scan(advert.skip(24), 0, TARGET_LINK_LAYER_ADDR, None) == Some(
                Some(answering.hardware_addr@),
            )
            &&& !overrides(advert)
        }),
{
    let group = target_addr.spec_solicited_node();
    law_ndisc_resolves(135, 0, target_addr, 1, asking.hardware_addr, src_addr, group);
    law_ndisc_resolves(136, 0x40, target_addr, 2, answering.hardware_addr, target_addr, src_addr);
    assert(is_solicited_node_of(answering.ip_addrs@[i], group));
    assert(answering.spec_has_ip_addr(IpAddress::Ipv6(target_addr)));
}

/// What the error about an IPv4 packet whose next hop did not answer is: destination unreachable
/// of code 1, from the given address to the sender of the packet, with the beginning of it.
pub proof fn law_failure4(s: Seq<u8>, src_addr: ipv4::Address)
    ensures
        ({
            let f = failure4(s, src_addr);
            &&& f[8] == 64
            &&& f[9] == 1
            &&& be32(f, 12) == src_addr.bits
            &&& be32(f, 16) == be32(s, 12)
            &&& f.skip(20)[0] == 3 && f.skip(20)[1] == 1
            &&& s.len() <= 548 ==> f.skip(20).skip(8) == s
            &&& s.len() > 548 ==> f.skip(20).skip(8) == s.take(548)
            &&& fold(word_sum(f.take(20))) == 0xffff
            &&& fold(word_sum(f.skip(20))) == 0xffff
        }),
{
    let message = error4(s, control4::DST_UNREACHABLE, control4::HOST_UNREACHABLE, false);
    law_error4(s, control4::DST_UNREACHABLE, control4::HOST_UNREACHABLE, false);
    law_ipv4_packet(src_addr, ipv4::header(s).src_addr, Protocol(ICMP), 64, false, message);
}

/// What the error about an IPv6 packet whose next hop did not answer is: destination unreachable
/// of code 3, from the given address to the sender of the packet, with the beginning of it.
pub proof fn law_failure6(s: Seq<u8>, src_addr: ipv6::Address)
    ensures
        ({
            let f = failure6(s, src_addr);
            &&& f[6] == 58
            &&& f[7] == 64
            &&& be128(f, 8) == src_addr.bits
            &&& be128(f, 24) == be128(s, 8)
            &&& f.skip(40)[0] == 1 && f.skip(40)[1] == 3
            &&& s.len() <= 1232 ==> f.skip(40).skip(8) == s
            &&& s.len() > 1232 ==> f.skip(40).skip(8) == s.take(1232)
            &&& control6::checksum_ok(f.skip(40), src_addr, ipv6::header(s).src_addr)
        }),
{
    let dst_addr = ipv6::header(s).src_addr;
    let message = error6(
        s,
        src_addr,
        dst_addr,
        control6::DST_UNREACHABLE,
        control6::ADDR_UNREACHABLE,
        0,
        false,
    );
    law_error6(
        s,
        src_addr,
        dst_addr,
        control6::DST_UNREACHABLE,
        control6::ADDR_UNREACHABLE,
        0,
        false,
    );
    control6::law_filled_checksum(
        seq![control6::DST_UNREACHABLE, control6::ADDR_UNREACHABLE, 0, 0] + octets32(0) + quote(
            s,
            1232,
        ),
        src_addr,
        dst_addr,
    );
    law_ipv6_packet(src_addr, dst_addr, Protocol(ICMPV6), 64, message);
    ipv6::law_header(s);
}

} // verus!

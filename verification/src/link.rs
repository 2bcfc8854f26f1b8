//! Handing IP packets to the link layer: finding the hardware address of the next hop, and
//! asking for it.

use vstd::prelude::*;

use crate::driver::Medium;
use crate::egress::{
    ethernet_frame, ipv4_packet, ipv6_header, law_ipv4_packet, law_ipv6_packet, push_ethernet_header,
    push_ipv4_header, push_ipv6_header,
};
use crate::endian::{be128, be16, be32, lemma_be128_octets128};
use crate::wire::checksum::{fold, word_sum};
use crate::iface::{IfaceHandle, IfaceState};
use crate::options::{
    law_lladdr_option, lladdr_option, lladdr_option_len, write_lladdr_option,
    SOURCE_LINK_LAYER_ADDR,
};
use crate::pending::{fitting, flushed, matching, NeighborKey, PendingPacket};
use crate::stack::{EgressRoute, Stack, TableRoute};
use crate::time::Instant;
use crate::wire::arp;
use crate::wire::ethernet::{
    broadcast_octets, Address as EthernetAddress, EtherType, ETHERTYPE_ARP, ETHERTYPE_IPV4,
    ETHERTYPE_IPV6,
};
use crate::wire::ieee802154::Address as Ieee802154Address;
use crate::wire::ip::{Address as IpAddress, Protocol, ICMPV6, UDP};
use crate::wire::{control6, ipv4, ipv6, HardwareAddress};

verus! {

/// What the neighbor cache knows of a neighbor.
#[derive(Debug, Clone, Copy)]
pub enum NeighborAnswer {
    /// The neighbor is resolved.
    Found(HardwareAddress),
    /// The neighbor is being resolved.
    Pending,
    /// The neighbor is unknown.
    NotFound,
}

/// The result of a neighbor lookup.
#[derive(Debug, Clone, Copy)]
pub enum NeighborLookup {
    /// The destination hardware address.
    Found(HardwareAddress),
    /// The neighbor is being resolved; the packet should be queued as pending.
    Pending {
        /// The address that is being resolved.
        next_hop: IpAddress,
        /// Whether the resolution starts with this packet, so that the first solicitation is
        /// due.
        start: bool,
    },
}

/// The Ethernet address that a multicast address maps to.
pub open spec fn multicast_octets(addr: IpAddress) -> Seq<u8> {
    match addr {
        IpAddress::Ipv4(a) => seq![
            0x01u8,
            0x00,
            0x5e,
            (a.bits / 0x1_0000 % 0x80) as u8,
            (a.bits / 0x100 % 0x100) as u8,
            (a.bits % 0x100) as u8,
        ],
        IpAddress::Ipv6(a) => seq![0x33u8, 0x33] + ipv6::address_octets(a.bits).subrange(12, 16),
    }
}

/// Whether `hardware_addr` is where packets to the broadcast or multicast address `dst_addr` go
/// on an interface.
pub open spec fn is_group_hardware_addr(
    iface: IfaceState,
    dst_addr: IpAddress,
    hardware_addr: HardwareAddress,
) -> bool {
    &&& hardware_addr.spec_medium() == iface.medium
    &&& if iface.medium == Medium::Ethernet && !iface.spec_is_broadcast(dst_addr) {
        hardware_addr@ == multicast_octets(dst_addr)
    } else {
        hardware_addr.spec_is_broadcast()
    }
}

/// Whether `lookup` is the right result for a packet: broadcast and multicast destinations have
/// a hardware address of their own, and other packets go to the next hop, as far as it is
/// resolved.
pub open spec fn is_lookup(
    iface: IfaceState,
    dst_addr: IpAddress,
    next_hop: IpAddress,
    answer: NeighborAnswer,
    lookup: NeighborLookup,
) -> bool {
    if iface.spec_is_broadcast(dst_addr) || dst_addr.spec_is_multicast() {
        lookup matches NeighborLookup::Found(addr) && is_group_hardware_addr(iface, dst_addr, addr)
    } else {
        lookup == match answer {
            NeighborAnswer::Found(addr) => NeighborLookup::Found(addr),
            NeighborAnswer::Pending => NeighborLookup::Pending { next_hop, start: false },
            NeighborAnswer::NotFound => NeighborLookup::Pending { next_hop, start: true },
        }
    }
}

/// What becomes of a packet that is handed to an interface.
pub enum Dispatch {
    /// The frame goes to the device.
    Transmit(Vec<u8>),
    /// The packet goes to the adaptation layer of the medium.
    Ieee802154 {
        /// The destination on the link.
        dst_addr: Ieee802154Address,
        /// The packet.
        buf: Vec<u8>,
    },
    /// The packet waits for the neighbor to be resolved.
    Parked {
        /// The neighbor.
        next_hop: IpAddress,
        /// Whether the resolution starts with this packet, so that the first solicitation is
        /// due.
        start: bool,
    },
    /// The packet is larger than the MTU, and is sent in fragments.
    Fragment(Vec<u8>),
    /// The packet is dropped.
    Drop,
}

/// Whether the answer of the neighbor cache is an address of the medium.
pub open spec fn answer_fits(answer: NeighborAnswer, medium: Medium) -> bool {
    answer matches NeighborAnswer::Found(addr) ==> addr.spec_medium() == medium
}

/// What dispatching the packet `buf` means, where `before` and `after` are the packets that wait
/// for a neighbor.
pub open spec fn is_dispatch(
    iface: IfaceState,
    dst_addr: IpAddress,
    next_hop: IpAddress,
    buf: Vec<u8>,
    ethertype: EtherType,
    answer: NeighborAnswer,
    now: Instant,
    before: Seq<PendingPacket>,
    after: Seq<PendingPacket>,
    dispatch: Dispatch,
) -> bool {
    if iface.medium == Medium::Ip {
        dispatch == Dispatch::Transmit(buf) && after == before
    } else if iface.medium == Medium::Ieee802154 && dst_addr is Ipv4 {
        dispatch is Drop && after == before
    } else {
        exists|lookup: NeighborLookup|
            #![trigger is_lookup(iface, dst_addr, next_hop, answer, lookup)]
            {
                &&& is_lookup(iface, dst_addr, next_hop, answer, lookup)
                &&& match lookup {
                    NeighborLookup::Found(HardwareAddress::Ethernet(addr)) => {
                        &&& dispatch matches Dispatch::Transmit(frame) && frame@ == ethernet_frame(
                            addr@,
                            iface.hardware_addr@,
                            ethertype,
                            buf@,
                        )
                        &&& after == before
                    },
                    NeighborLookup::Found(HardwareAddress::Ieee802154(addr)) => {
                        &&& dispatch == Dispatch::Ieee802154 { dst_addr: addr, buf }
                        &&& after == before
                    },
                    NeighborLookup::Found(HardwareAddress::Ip) => false,
                    NeighborLookup::Pending { next_hop: hop, start } => {
                        &&& dispatch == Dispatch::Parked { next_hop: hop, start }
                        &&& after == before.push(
                            PendingPacket {
                                key: NeighborKey { iface: iface.handle, addr: hop },
                                buf,
                                queued_at: now,
                            },
                        )
                    },
                }
            }
    }
}

impl IfaceState {
    /// The Ethernet address of the interface.
    pub fn ethernet_addr(&self) -> (addr: EthernetAddress)
        requires
            self.hardware_addr is Ethernet,
        ensures
            self.hardware_addr == HardwareAddress::Ethernet(addr),
            addr@ == self.hardware_addr@,
    {
        self.hardware_addr.ethernet_or_panic()
    }

    /// Look up the destination hardware address for an egress packet, where `answer` is what
    /// the neighbor cache knows of the next hop.
    ///
    /// `next_hop` is the pre-routed address to resolve on the link, from an [`EgressRoute`].
    pub fn lookup_hardware_addr(
        &self,
        dst_addr: &IpAddress,
        next_hop: IpAddress,
        answer: NeighborAnswer,
    ) -> (lookup: NeighborLookup)
        requires
            self.medium != Medium::Ip,
        ensures
            is_lookup(*self, *dst_addr, next_hop, answer, lookup),
    {
        if self.is_broadcast(dst_addr) {
            return match self.medium {
                Medium::Ethernet => NeighborLookup::Found(
                    HardwareAddress::Ethernet(EthernetAddress::broadcast()),
                ),
                _ => NeighborLookup::Found(
                    HardwareAddress::Ieee802154(Ieee802154Address::broadcast()),
                ),
            };
        }
        if dst_addr.is_multicast() {
            return match self.medium {
                Medium::Ethernet => {
                    let addr = match dst_addr {
                        IpAddress::Ipv4(a) => a.multicast_ethernet_addr(),
                        IpAddress::Ipv6(a) => a.multicast_ethernet_addr(),
                    };
                    NeighborLookup::Found(HardwareAddress::Ethernet(addr))
                },
                // RFC 4944 §9: IPv6 multicast is broadcast on the link.
                _ => NeighborLookup::Found(
                    HardwareAddress::Ieee802154(Ieee802154Address::broadcast()),
                ),
            };
        }
        match answer {
            NeighborAnswer::Found(hardware_addr) => NeighborLookup::Found(hardware_addr),
            // Resolution is already in progress; the retransmission timer owns any further
            // solicitations.
            NeighborAnswer::Pending => NeighborLookup::Pending { next_hop, start: false },
            NeighborAnswer::NotFound => NeighborLookup::Pending { next_hop, start: true },
        }
    }

    /// Put a packet into an Ethernet frame of the interface.
    pub fn transmit_ethernet(
        &self,
        dst_hw: EthernetAddress,
        buf: Vec<u8>,
        ethertype: EtherType,
    ) -> (frame: Vec<u8>)
        requires
            self.hardware_addr is Ethernet,
        ensures
            frame@ == ethernet_frame(dst_hw@, self.hardware_addr@, ethertype, buf@),
    {
        let mut frame: Vec<u8> = buf;
        push_ethernet_header(&mut frame, dst_hw, self.ethernet_addr(), ethertype);
        frame
    }

    /// Hand an IP packet whose next hop resolved to `hardware_addr` to the link layer of the
    /// interface's medium. `dst_addr` names the IP version.
    pub fn transmit_link(
        &self,
        hardware_addr: HardwareAddress,
        buf: Vec<u8>,
        dst_addr: IpAddress,
    ) -> (dispatch: Dispatch)
        requires
            self.medium != Medium::Ip,
            self.hardware_addr.spec_medium() == self.medium,
            hardware_addr.spec_medium() == self.medium,
        ensures
            match hardware_addr {
                HardwareAddress::Ethernet(addr) => dispatch matches Dispatch::Transmit(frame)
                    && frame@ == ethernet_frame(
                    addr@,
                    self.hardware_addr@,
                    ethertype_of(dst_addr),
                    buf@,
                ),
                HardwareAddress::Ieee802154(addr) => dispatch == (Dispatch::Ieee802154 {
                    dst_addr: addr,
                    buf,
                }),
                HardwareAddress::Ip => false,
            },
    {
        match hardware_addr {
            HardwareAddress::Ethernet(addr) => Dispatch::Transmit(
                self.transmit_ethernet(addr, buf, ethertype_for(&dst_addr)),
            ),
            HardwareAddress::Ieee802154(addr) => Dispatch::Ieee802154 { dst_addr: addr, buf },
            HardwareAddress::Ip => vstd::pervasive::unreached(),
        }
    }
}

/// The type of Ethernet frames that carry packets to the given address.
pub open spec fn ethertype_of(addr: IpAddress) -> EtherType {
    match addr {
        IpAddress::Ipv4(_) => EtherType(ETHERTYPE_IPV4),
        IpAddress::Ipv6(_) => EtherType(ETHERTYPE_IPV6),
    }
}

/// The type of Ethernet frames that carry packets to the given address.
pub fn ethertype_for(addr: &IpAddress) -> (ethertype: EtherType)
    ensures
        ethertype == ethertype_of(*addr),
{
    match addr {
        IpAddress::Ipv4(_) => EtherType(ETHERTYPE_IPV4),
        IpAddress::Ipv6(_) => EtherType(ETHERTYPE_IPV6),
    }
}

impl Stack {
    /// Hand an IP packet that fits the interface's MTU to the link layer, where `answer` is
    /// what the neighbor cache knows of the next hop.
    ///
    /// If the neighbor is not resolved yet, the packet is queued and flushed when resolution
    /// completes.
    pub fn dispatch_ip(
        &mut self,
        iface: IfaceHandle,
        dst_addr: IpAddress,
        next_hop: IpAddress,
        buf: Vec<u8>,
        ethertype: EtherType,
        answer: NeighborAnswer,
    ) -> (dispatch: Dispatch)
        requires
            old(self).wf(),
            old(self).live(iface),
            answer_fits(answer, old(self).spec_iface(iface).medium),
        ensures
            is_dispatch(
                old(self).spec_iface(iface),
                dst_addr,
                next_hop,
                buf,
                ethertype,
                answer,
                old(self).now,
                old(self).pending@,
                final(self).pending@,
                dispatch,
            ),
            *final(self) == (Stack { pending: final(self).pending, ..*old(self) }),
    {
        let state = self.ifaces.get(iface.index);
        match state.medium {
            Medium::Ip => return Dispatch::Transmit(buf),
            Medium::Ieee802154 => {
                // The medium is IPv6-only.
                if let IpAddress::Ipv4(_) = dst_addr {
                    return Dispatch::Drop;
                }
            },
            Medium::Ethernet => {},
        }
        let lookup = state.lookup_hardware_addr(&dst_addr, next_hop, answer);
        let ghost found = is_lookup(*state, dst_addr, next_hop, answer, lookup);
        match lookup {
            NeighborLookup::Found(HardwareAddress::Ethernet(hardware_addr)) => Dispatch::Transmit(
                state.transmit_ethernet(hardware_addr, buf, ethertype),
            ),
            NeighborLookup::Found(HardwareAddress::Ieee802154(hardware_addr)) => {
                Dispatch::Ieee802154 { dst_addr: hardware_addr, buf }
            },
            NeighborLookup::Found(HardwareAddress::Ip) => vstd::pervasive::unreached(),
            NeighborLookup::Pending { next_hop, start } => {
                let key = NeighborKey { iface: state.handle, addr: next_hop };
                self.pending.push(key, buf, self.now);
                Dispatch::Parked { next_hop, start }
            },
        }
    }

    /// Transmit a fully-built IP packet on an interface, fragmenting it first if it is larger
    /// than the interface's MTU (IPv4 only).
    pub fn transmit_ip_on(
        &mut self,
        iface: IfaceHandle,
        dst_addr: IpAddress,
        next_hop: IpAddress,
        buf: Vec<u8>,
        ethertype: EtherType,
        answer: NeighborAnswer,
    ) -> (dispatch: Dispatch)
        requires
            old(self).wf(),
            old(self).live(iface),
            answer_fits(answer, old(self).spec_iface(iface).medium),
        ensures
            if buf@.len() <= old(self).spec_iface(iface).ip_mtu {
                is_dispatch(
                    old(self).spec_iface(iface),
                    dst_addr,
                    next_hop,
                    buf,
                    ethertype,
                    answer,
                    old(self).now,
                    old(self).pending@,
                    final(self).pending@,
                    dispatch,
                )
            } else {
                &&& final(self).pending@ == old(self).pending@
                &&& dispatch == if ethertype.0 == ETHERTYPE_IPV4 {
                    Dispatch::Fragment(buf)
                } else {
                    Dispatch::Drop
                }
            },
            *final(self) == (Stack { pending: final(self).pending, ..*old(self) }),
    {
        if buf.len() > self.ifaces.get(iface.index).ip_mtu {
            // We don't support IPv6 fragmentation yet.
            return if ethertype.0 == ETHERTYPE_IPV4 {
                Dispatch::Fragment(buf)
            } else {
                Dispatch::Drop
            };
        }
        self.dispatch_ip(iface, dst_addr, next_hop, buf, ethertype, answer)
    }
}

/// An IP packet from `src_addr` to `dst_addr`, or `None` if the addresses do not belong to the
/// same address family.
pub open spec fn ip_packet(
    src_addr: IpAddress,
    dst_addr: IpAddress,
    next_header: Protocol,
    hop_limit: u8,
    offload: bool,
    payload: Seq<u8>,
) -> Option<Seq<u8>> {
    match (src_addr, dst_addr) {
        (IpAddress::Ipv4(src), IpAddress::Ipv4(dst)) => Some(
            ipv4_packet(src, dst, next_header, hop_limit, offload, payload),
        ),
        (IpAddress::Ipv6(src), IpAddress::Ipv6(dst)) => Some(
            ipv6_header(src, dst, next_header, hop_limit, payload.len()) + payload,
        ),
        _ => None,
    }
}

impl Stack {
    /// Put an IP header in front of an IP payload, with the L4 header but not the IP header,
    /// for the interface that the route names.
    ///
    /// `src_addr` and `dst_addr` must belong to the same address family, the packet is dropped
    /// otherwise.
    pub fn build_ip(
        &self,
        route: &EgressRoute,
        buf: Vec<u8>,
        src_addr: IpAddress,
        dst_addr: IpAddress,
        next_header: Protocol,
        hop_limit: u8,
    ) -> (packet: Option<Vec<u8>>)
        requires
            self.live(route.iface),
        ensures
            match packet {
                Some(p) => ip_packet(
                    src_addr,
                    dst_addr,
                    next_header,
                    hop_limit,
                    self.spec_iface(route.iface).checksum.ipv4.tx,
                    buf@,
                ) == Some(p@),
                None => src_addr.spec_version() != dst_addr.spec_version(),
            },
    {
        let checksum_caps = self.ifaces.get(route.iface.index).checksum;
        let mut packet: Vec<u8> = buf;
        match (src_addr, dst_addr) {
            (IpAddress::Ipv4(src), IpAddress::Ipv4(dst)) => {
                push_ipv4_header(&mut packet, src, dst, next_header, hop_limit, &checksum_caps);
                Some(packet)
            },
            (IpAddress::Ipv6(src), IpAddress::Ipv6(dst)) => {
                push_ipv6_header(&mut packet, src, dst, next_header, hop_limit);
                Some(packet)
            },
            _ => None,
        }
    }

    /// Transmit a fully-built IP payload, with the L4 header but not the IP header.
    ///
    /// `src_addr` and `dst_addr` must belong to the same address family, the packet is dropped
    /// otherwise.
    pub fn transmit_ip(
        &mut self,
        route: &EgressRoute,
        buf: Vec<u8>,
        src_addr: IpAddress,
        dst_addr: IpAddress,
        next_header: Protocol,
        hop_limit: u8,
        answer: NeighborAnswer,
    ) -> (dispatch: Dispatch)
        requires
            old(self).wf(),
            old(self).live(route.iface),
            answer_fits(answer, old(self).spec_iface(route.iface).medium),
        ensures
            *final(self) == (Stack { pending: final(self).pending, ..*old(self) }),
            src_addr.spec_version() != dst_addr.spec_version() ==> dispatch is Drop
                && final(self).pending@ == old(self).pending@,
            src_addr.spec_version() == dst_addr.spec_version() ==> exists|packet: Vec<u8>|
                {
                    &&& ip_packet(
                        src_addr,
                        dst_addr,
                        next_header,
                        hop_limit,
                        old(self).spec_iface(route.iface).checksum.ipv4.tx,
                        buf@,
                    ) == Some(#[trigger] packet@)
                    &&& is_transmission(
                        old(self).spec_iface(route.iface),
                        dst_addr,
                        route.next_hop,
                        packet,
                        answer,
                        old(self).now,
                        old(self).pending@,
                        final(self).pending@,
                        dispatch,
                    )
                },
    {
        match self.build_ip(route, buf, src_addr, dst_addr, next_header, hop_limit) {
            Some(packet) => self.transmit_raw_ip(route, packet, dst_addr, answer),
            None => Dispatch::Drop,
        }
    }

    /// Transmit a fully-built IP packet (IP header included, emitted as-is).
    pub fn transmit_raw_ip(
        &mut self,
        route: &EgressRoute,
        buf: Vec<u8>,
        dst_addr: IpAddress,
        answer: NeighborAnswer,
    ) -> (dispatch: Dispatch)
        requires
            old(self).wf(),
            old(self).live(route.iface),
            answer_fits(answer, old(self).spec_iface(route.iface).medium),
        ensures
            *final(self) == (Stack { pending: final(self).pending, ..*old(self) }),
            is_transmission(
                old(self).spec_iface(route.iface),
                dst_addr,
                route.next_hop,
                buf,
                answer,
                old(self).now,
                old(self).pending@,
                final(self).pending@,
                dispatch,
            ),
    {
        self.transmit_ip_on(
            route.iface,
            dst_addr,
            route.next_hop,
            buf,
            ethertype_for(&dst_addr),
            answer,
        )
    }

    /// Note that a neighbor was resolved: take the packets that wait for it out of the queue,
    /// as many as the device has room for.
    pub fn fill_neighbor(
        &mut self,
        iface: IfaceHandle,
        addr: IpAddress,
        room: usize,
    ) -> (packets: Vec<PendingPacket>)
        ensures
            packets@ == matching(old(self).pending@, NeighborKey { iface, addr }).take(
                fitting(old(self).pending@, NeighborKey { iface, addr }, room as int),
            ),
            final(self).pending@ == flushed(
                old(self).pending@,
                NeighborKey { iface, addr },
                room as int,
            ),
            *final(self) == (Stack { pending: final(self).pending, ..*old(self) }),
    {
        let key = NeighborKey { iface, addr };
        self.pending.flush_pending(&key, room)
    }
}

/// What transmitting the packet `buf` means: a packet that fits the MTU is dispatched, a larger
/// IPv4 packet is sent in fragments, and a larger IPv6 packet is dropped.
pub open spec fn is_transmission(
    iface: IfaceState,
    dst_addr: IpAddress,
    next_hop: IpAddress,
    buf: Vec<u8>,
    answer: NeighborAnswer,
    now: Instant,
    before: Seq<PendingPacket>,
    after: Seq<PendingPacket>,
    dispatch: Dispatch,
) -> bool {
    if buf@.len() <= iface.ip_mtu {
        is_dispatch(
            iface,
            dst_addr,
            next_hop,
            buf,
            ethertype_of(dst_addr),
            answer,
            now,
            before,
            after,
            dispatch,
        )
    } else {
        &&& after == before
        &&& dispatch == if dst_addr is Ipv4 {
            Dispatch::Fragment(buf)
        } else {
            Dispatch::Drop
        }
    }
}

/// A request for the Ethernet address of a neighbor.
pub open spec fn arp_request(
    hardware_addr: Seq<u8>,
    src_addr: ipv4::Address,
    target_addr: ipv4::Address,
) -> Seq<u8> {
    ethernet_frame(
        broadcast_octets(),
        hardware_addr,
        EtherType(ETHERTYPE_ARP),
        arp::octets(
            arp::OPERATION_REQUEST,
            hardware_addr,
            src_addr,
            broadcast_octets(),
            target_addr,
        ),
    )
}

/// A neighbor discovery message of `msg_type` about `target_addr`, with the given flags and the
/// link-layer address of the sender.
pub open spec fn ndisc_message(
    msg_type: u8,
    flags: u8,
    target_addr: ipv6::Address,
    option_type: u8,
    hardware_addr: Seq<u8>,
) -> Seq<u8> {
    seq![msg_type, 0, 0, 0, flags, 0, 0, 0] + ipv6::address_octets(target_addr.bits)
        + lladdr_option(option_type, hardware_addr)
}

/// A neighbor discovery message in an IPv6 packet, with the undecremented hop limit.
pub open spec fn ndisc_packet(
    message: Seq<u8>,
    src_addr: ipv6::Address,
    dst_addr: ipv6::Address,
    offload: bool,
) -> Seq<u8> {
    ipv6_header(src_addr, dst_addr, Protocol(ICMPV6), 0xff, message.len())
        + control6::with_checksum(message, src_addr, dst_addr, offload)
}

/// Build a neighbor discovery message, before the checksum is filled in.
pub fn build_ndisc(
    msg_type: u8,
    flags: u8,
    target_addr: ipv6::Address,
    option_type: u8,
    hardware_addr: HardwareAddress,
) -> (message: Vec<u8>)
    ensures
        message@ == ndisc_message(msg_type, flags, target_addr, option_type, hardware_addr@),
{
    let mut message: Vec<u8> = vec![msg_type, 0, 0, 0, flags, 0, 0, 0];
    message.extend_from_slice(&target_addr.octets());
    let len: usize = lladdr_option_len(hardware_addr);
    let mut option: Vec<u8> = vec![0u8; len];
    write_lladdr_option(option.as_mut_slice(), option_type, hardware_addr);
    message.append(&mut option);
    proof {
        ipv6::lemma_octets_len(target_addr);
    }
    assert(message@ =~= ndisc_message(
        msg_type,
        flags,
        target_addr,
        option_type,
        hardware_addr@,
    ));
    message
}

impl IfaceState {
    /// Transmit an NDISC message on the interface: build its packet.
    ///
    /// NDISC is link-scoped: the packet is never routed, and the next hop is the destination
    /// itself (an on-link neighbor or a multicast group).
    pub fn transmit_ndisc(
        &self,
        message: Vec<u8>,
        src_addr: ipv6::Address,
        dst_addr: ipv6::Address,
    ) -> (packet: Vec<u8>)
        requires
            message@.len() >= 4,
        ensures
            packet@ == ndisc_packet(message@, src_addr, dst_addr, self.checksum.icmpv6.tx),
    {
        let mut packet: Vec<u8> = message;
        control6::fill_checksum(
            packet.as_mut_slice(),
            &src_addr,
            &dst_addr,
            self.checksum.icmpv6.tx,
        );
        push_ipv6_header(&mut packet, src_addr, dst_addr, Protocol(ICMPV6), 0xff);
        packet
    }

    /// Build the frame that asks for the Ethernet address of `target_addr`. `source` is the
    /// address to ask from; without one there is nothing to send.
    pub fn transmit_arp_request(
        &self,
        target_addr: ipv4::Address,
        source: Option<ipv4::Address>,
    ) -> (frame: Option<Vec<u8>>)
        requires
            self.hardware_addr is Ethernet,
        ensures
            frame is Some <==> source is Some,
            frame matches Some(f) ==> f@ == arp_request(self.hardware_addr@, source->0, target_addr),
    {
        match source {
            Some(source_protocol_addr) => {
                let message = arp::Message {
                    operation: arp::OPERATION_REQUEST,
                    source_hardware_addr: self.ethernet_addr(),
                    source_protocol_addr,
                    target_hardware_addr: EthernetAddress::broadcast(),
                    target_protocol_addr: target_addr,
                };
                Some(
                    self.transmit_ethernet(
                        EthernetAddress::broadcast(),
                        message.emit(),
                        EtherType(ETHERTYPE_ARP),
                    ),
                )
            },
            None => None,
        }
    }

    /// Build the packet that asks for the link-layer address of `target_addr`, sent from
    /// `src_addr` to the solicited-node group of the target.
    pub fn transmit_ndisc_solicit(
        &self,
        target_addr: ipv6::Address,
        src_addr: ipv6::Address,
    ) -> (packet: Vec<u8>)
        requires
            target_addr.spec_is_unicast(),
        ensures
            packet@ == ndisc_packet(
                ndisc_message(
                    control6::NEIGHBOR_SOLICIT,
                    0,
                    target_addr,
                    SOURCE_LINK_LAYER_ADDR,
                    self.hardware_addr@,
                ),
                src_addr,
                target_addr.spec_solicited_node(),
                self.checksum.icmpv6.tx,
            ),
    {
        let message: Vec<u8> = build_ndisc(
            control6::NEIGHBOR_SOLICIT,
            0,
            target_addr,
            SOURCE_LINK_LAYER_ADDR,
            self.hardware_addr,
        );
        self.transmit_ndisc(message, src_addr, target_addr.solicited_node())
    }

    /// Where a packet to `dst_addr` goes that is sent on this interface whatever the routes of
    /// the stack are: a unicast destination that is not on-link is sent via the routing table's
    /// gateway, if any, else directly.
    pub fn next_hop_on(&self, dst_addr: &IpAddress, table: Option<TableRoute>) -> (next_hop:
        IpAddress)
        ensures
            next_hop == if dst_addr.spec_is_unicast() && !self.spec_in_same_network(*dst_addr) {
                match table {
                    Some(route) => route.via_router,
                    None => *dst_addr,
                }
            } else {
                *dst_addr
            },
            !dst_addr.spec_is_unicast() || self.spec_in_same_network(*dst_addr) || table is None
                ==> next_hop == *dst_addr,
            table matches Some(route) ==> (dst_addr.spec_is_unicast() && !self.spec_in_same_network(
                *dst_addr,
            ) ==> next_hop == route.via_router),
    {
        if !dst_addr.is_unicast() || self.in_same_network(dst_addr) {
            return *dst_addr;
        }
        match table {
            Some(route) => route.via_router,
            None => *dst_addr,
        }
    }

    /// Transmit a fully-built UDP packet on the interface as an IPv4 packet from `src_addr` to
    /// `dst_addr`, bypassing routing and source address checks: build the packet, and find its
    /// next hop.
    ///
    /// This is how the DHCP client sends from `0.0.0.0` to broadcast on an interface that has
    /// no address yet.
    pub fn transmit_ipv4_on(
        &self,
        src_addr: ipv4::Address,
        dst_addr: ipv4::Address,
        buf: Vec<u8>,
        table: Option<TableRoute>,
    ) -> (sent: (IpAddress, Vec<u8>))
        ensures
            sent.0 == if dst_addr.spec_is_unicast() && !self.spec_in_same_network(
                IpAddress::Ipv4(dst_addr),
            ) && table is Some {
                (table->0).via_router
            } else {
                IpAddress::Ipv4(dst_addr)
            },
            sent.1@ == ipv4_packet(
                src_addr,
                dst_addr,
                Protocol(UDP),
                64,
                self.checksum.ipv4.tx,
                buf@,
            ),
            buf@.len() <= 0xffff - 20 ==> {
                &&& sent.1@[8] == 64
                &&& sent.1@[9] == 17
                &&& be32(sent.1@, 12) == src_addr.bits
                &&& be32(sent.1@, 16) == dst_addr.bits
                &&& sent.1@.skip(20) == buf@
            },
    {
        proof {
            if buf@.len() <= 0xffff - 20 {
                law_ipv4_packet(
                    src_addr,
                    dst_addr,
                    Protocol(UDP),
                    64,
                    self.checksum.ipv4.tx,
                    buf@,
                );
            }
        }
        let mut packet: Vec<u8> = buf;
        push_ipv4_header(&mut packet, src_addr, dst_addr, Protocol(UDP), 64, &self.checksum);
        (self.next_hop_on(&IpAddress::Ipv4(dst_addr), table), packet)
    }
}

/// A packet to a broadcast or multicast address never waits for a neighbor.
pub proof fn law_group_is_not_parked(
    iface: IfaceState,
    dst_addr: IpAddress,
    next_hop: IpAddress,
    buf: Vec<u8>,
    ethertype: EtherType,
    answer: NeighborAnswer,
    now: Instant,
    before: Seq<PendingPacket>,
    after: Seq<PendingPacket>,
    dispatch: Dispatch,
)
    requires
        is_dispatch(
            iface,
            dst_addr,
            next_hop,
            buf,
            ethertype,
            answer,
            now,
            before,
            after,
            dispatch,
        ),
        iface.spec_is_broadcast(dst_addr) || dst_addr.spec_is_multicast(),
    ensures
        !(dispatch is Parked),
        after == before,
{
}

/// A packet that waits for a neighbor is sent when the neighbor is resolved, behind those that
/// waited before it, if the device has room for all of them.
pub proof fn law_parked_packet_is_sent(
    iface: IfaceState,
    dst_addr: IpAddress,
    next_hop: IpAddress,
    buf: Vec<u8>,
    ethertype: EtherType,
    answer: NeighborAnswer,
    now: Instant,
    before: Seq<PendingPacket>,
    after: Seq<PendingPacket>,
    dispatch: Dispatch,
    room: int,
)
    requires
        is_dispatch(
            iface,
            dst_addr,
            next_hop,
            buf,
            ethertype,
            answer,
            now,
            before,
            after,
            dispatch,
        ),
        dispatch is Parked,
        matching(before, NeighborKey { iface: iface.handle, addr: next_hop }).len() < room,
    ensures
        ({
            let key = NeighborKey { iface: iface.handle, addr: next_hop };
            let sent = matching(after, key).take(fitting(after, key, room));
            &&& sent.len() == matching(before, key).len() + 1
            &&& sent.drop_last() == matching(before, key)
            &&& sent.last().buf == buf
        }),
{
    let key = NeighborKey { iface: iface.handle, addr: next_hop };
    let packet = after.last();
    assert(after == before.push(packet));
    assert(after.drop_last() =~= before);
    assert(matching(after, key) == matching(before, key).push(packet));
    assert(matching(after, key).take(fitting(after, key, room)) =~= matching(after, key));
    assert(matching(after, key).drop_last() =~= matching(before, key));
}

/// Where packets go on a link. Packets to a single host go to the hardware address of the next
/// hop if it is known, and wait for it otherwise: only the first of them starts to ask for it.
/// Packets to a broadcast address go to the broadcast address of the link, and packets to a
/// multicast group to the Ethernet group that carries the end of the address of the group.
pub proof fn law_lookup(
    iface: IfaceState,
    dst_addr: IpAddress,
    next_hop: IpAddress,
    answer: NeighborAnswer,
    lookup: NeighborLookup,
)
    requires
        is_lookup(iface, dst_addr, next_hop, answer, lookup),
    ensures
        !iface.spec_is_broadcast(dst_addr) && !dst_addr.spec_is_multicast() ==> {
            &&& answer matches NeighborAnswer::Found(addr) ==> lookup == NeighborLookup::Found(addr)
            &&& answer is Pending ==> (lookup matches NeighborLookup::Pending {
                next_hop: hop,
                start,
            } && hop == next_hop && !start)
            &&& answer is NotFound ==> (lookup matches NeighborLookup::Pending {
                next_hop: hop,
                start,
            } && hop == next_hop && start)
        },
        iface.spec_is_broadcast(dst_addr) && iface.medium == Medium::Ethernet ==> (
        lookup matches NeighborLookup::Found(addr) && addr@.len() == 6 && forall|i: int|
            0 <= i < 6 ==> #[trigger] addr@[i] == 0xff),
        !iface.spec_is_broadcast(dst_addr) && iface.medium == Medium::Ethernet ==> match dst_addr {
            IpAddress::Ipv4(a) => a.bits / 0x1000_0000 == 0xe ==> (
            lookup matches NeighborLookup::Found(addr) && addr@.take(3) == seq![0x01u8, 0x00, 0x5e]
                && addr@[3] == ipv4::address_octets(a.bits)[1] % 0x80 && addr@.subrange(4, 6)
                == ipv4::address_octets(a.bits).subrange(2, 4)),
            IpAddress::Ipv6(a) => a.spec_is_multicast() ==> (
            lookup matches NeighborLookup::Found(addr) && addr@.take(2) == seq![0x33u8, 0x33]
                && addr@.subrange(2, 6) == ipv6::address_octets(a.bits).subrange(12, 16)),
        },
        iface.medium == Medium::Ieee802154 && (iface.spec_is_broadcast(dst_addr)
            || dst_addr.spec_is_multicast()) ==> (lookup matches NeighborLookup::Found(addr)
            && addr@ == seq![0xffu8, 0xff]),
{
    if iface.medium == Medium::Ethernet && !iface.spec_is_broadcast(dst_addr) {
        if let NeighborLookup::Found(addr) = lookup {
            match dst_addr {
                IpAddress::Ipv4(a) => {
                    if a.bits / 0x1000_0000 == 0xe {
                        assert(addr@.take(3) =~= seq![0x01u8, 0x00, 0x5e]);
                        assert(addr@.subrange(4, 6) =~= ipv4::address_octets(a.bits).subrange(2, 4));
                    }
                },
                IpAddress::Ipv6(a) => {
                    if a.spec_is_multicast() {
                        ipv6::lemma_octets_len(a);
                        assert(addr@.take(2) =~= seq![0x33u8, 0x33]);
                        assert(addr@.subrange(2, 6) =~= ipv6::address_octets(a.bits).subrange(
                            12,
                            16,
                        ));
                    }
                },
            }
        }
    }
}

/// What becomes of a packet that is handed to an interface, said of the octets of its frame. A
/// medium without addresses takes the packet as it is. On Ethernet a packet to a single host is
/// framed with the address of the next hop, the address of the interface and the type, or waits
/// for the next hop at the end of the queue. The queue changes in no other way.
pub proof fn law_dispatch(
    iface: IfaceState,
    dst_addr: IpAddress,
    next_hop: IpAddress,
    buf: Vec<u8>,
    ethertype: EtherType,
    answer: NeighborAnswer,
    now: Instant,
    before: Seq<PendingPacket>,
    after: Seq<PendingPacket>,
    dispatch: Dispatch,
)
    requires
        is_dispatch(
            iface,
            dst_addr,
            next_hop,
            buf,
            ethertype,
            answer,
            now,
            before,
            after,
            dispatch,
        ),
        iface.hardware_addr.spec_medium() == iface.medium,
    ensures
        !(dispatch is Fragment),
        !(dispatch is Parked) ==> after == before,
        iface.medium == Medium::Ip ==> dispatch == Dispatch::Transmit(buf),
        iface.medium == Medium::Ieee802154 ==> (dst_addr is Ipv4 <==> dispatch is Drop),
        iface.medium == Medium::Ethernet ==> !(dispatch is Drop),
        iface.medium == Medium::Ethernet ==> (dispatch matches Dispatch::Transmit(frame) ==> {
            &&& frame@.subrange(6, 12) == iface.hardware_addr@
            &&& be16(frame@, 12) == ethertype.0
            &&& frame@.skip(14) == buf@
        }),
        iface.medium == Medium::Ethernet && !iface.spec_is_broadcast(dst_addr)
            && !dst_addr.spec_is_multicast() ==> {
            &&& answer matches NeighborAnswer::Found(HardwareAddress::Ethernet(addr)) ==> (
            dispatch matches Dispatch::Transmit(frame) && frame@.take(6) == addr@)
            &&& answer is Pending || answer is NotFound ==> {
                &&& dispatch matches Dispatch::Parked { next_hop: hop, start }
                &&& hop == next_hop
                &&& start <==> answer is NotFound
                &&& after.len() == before.len() + 1
                &&& after.drop_last() == before
                &&& after.last().key.iface == iface.handle
                &&& after.last().key.addr == next_hop
                &&& after.last().buf == buf
                &&& after.last().queued_at == now
            }
        },
        iface.medium == Medium::Ethernet && (iface.spec_is_broadcast(dst_addr)
            || dst_addr.spec_is_multicast()) ==> (dispatch matches Dispatch::Transmit(frame)
            && frame@[0] % 2 == 1),
{
    if iface.medium == Medium::Ethernet {
        let lookup = choose|lookup: NeighborLookup|
            #![trigger is_lookup(iface, dst_addr, next_hop, answer, lookup)]
            {
                &&& is_lookup(iface, dst_addr, next_hop, answer, lookup)
                &&& match lookup {
                    NeighborLookup::Found(HardwareAddress::Ethernet(addr)) => {
                        &&& dispatch matches Dispatch::Transmit(frame) && frame@ == ethernet_frame(
                            addr@,
                            iface.hardware_addr@,
                            ethertype,
                            buf@,
                        )
                        &&& after == before
                    },
                    NeighborLookup::Found(HardwareAddress::Ieee802154(addr)) => {
                        &&& dispatch == Dispatch::Ieee802154 { dst_addr: addr, buf }
                        &&& after == before
                    },
                    NeighborLookup::Found(HardwareAddress::Ip) => false,
                    NeighborLookup::Pending { next_hop: hop, start } => {
                        &&& dispatch == Dispatch::Parked { next_hop: hop, start }
                        &&& after == before.push(
                            PendingPacket {
                                key: NeighborKey { iface: iface.handle, addr: hop },
                                buf,
                                queued_at: now,
                            },
                        )
                    },
                }
            };
        law_lookup(iface, dst_addr, next_hop, answer, lookup);
        match lookup {
            NeighborLookup::Found(HardwareAddress::Ethernet(addr)) => {
                let frame = ethernet_frame(addr@, iface.hardware_addr@, ethertype, buf@);
                assert(frame.take(6) =~= addr@);
                assert(frame.subrange(6, 12) =~= iface.hardware_addr@);
                assert(frame.skip(14) =~= buf@);
                assert(frame[0] == addr@[0]);
                if !iface.spec_is_broadcast(dst_addr) && dst_addr.spec_is_multicast() {
                    if let IpAddress::Ipv6(a) = dst_addr {
                        ipv6::lemma_octets_len(a);
                    }
                    assert(addr@[0] == addr@.take(2)[0]);
                    assert(addr@[0] == addr@.take(3)[0]);
                }
            },
            NeighborLookup::Pending { next_hop: hop, start } => {
                assert(after.drop_last() =~= before);
            },
            _ => {},
        }
    }
}

/// A packet that fits the MTU is never fragmented. A larger packet is never sent as it is, nor
/// queued: an IPv4 packet goes to fragmentation whole, and an IPv6 packet is dropped.
pub proof fn law_transmission(
    iface: IfaceState,
    dst_addr: IpAddress,
    next_hop: IpAddress,
    buf: Vec<u8>,
    answer: NeighborAnswer,
    now: Instant,
    before: Seq<PendingPacket>,
    after: Seq<PendingPacket>,
    dispatch: Dispatch,
)
    requires
        is_transmission(iface, dst_addr, next_hop, buf, answer, now, before, after, dispatch),
        iface.hardware_addr.spec_medium() == iface.medium,
    ensures
        buf@.len() > iface.ip_mtu && dst_addr is Ipv4 ==> dispatch == Dispatch::Fragment(buf)
            && after == before,
        buf@.len() > iface.ip_mtu && dst_addr is Ipv6 ==> dispatch is Drop && after == before,
        buf@.len() <= iface.ip_mtu ==> !(dispatch is Fragment),
        buf@.len() <= iface.ip_mtu && iface.medium == Medium::Ip ==> dispatch == Dispatch::Transmit(
            buf,
        ),
        buf@.len() <= iface.ip_mtu && iface.medium == Medium::Ethernet ==> (
        dispatch matches Dispatch::Transmit(frame) ==> be16(frame@, 12) == match dst_addr {
            IpAddress::Ipv4(_) => 0x0800int,
            IpAddress::Ipv6(_) => 0x86ddint,
        } && frame@.skip(14) == buf@),
{
    if buf@.len() <= iface.ip_mtu {
        law_dispatch(
            iface,
            dst_addr,
            next_hop,
            buf,
            ethertype_of(dst_addr),
            answer,
            now,
            before,
            after,
            dispatch,
        );
    }
}

/// A neighbor discovery message travels in an IPv6 packet between the given addresses, with the
/// largest hop limit, by which the receiver knows that it comes from the link, and with a
/// checksum that the receiver accepts unless the device fills it in.
pub proof fn law_ndisc_packet(
    message: Seq<u8>,
    src_addr: ipv6::Address,
    dst_addr: ipv6::Address,
    offload: bool,
)
    requires
        4 <= message.len() <= 0xffff,
    ensures
        ({
            let s = ndisc_packet(message, src_addr, dst_addr, offload);
            &&& ipv6::well_formed(s)
            &&& ipv6::header(s).version == 6
            &&& ipv6::header(s).hop_limit == 255
            &&& ipv6::header(s).next_header.0 == 58
            &&& ipv6::header(s).src_addr == src_addr
            &&& ipv6::header(s).dst_addr == dst_addr
            &&& ipv6::payload(s).len() == message.len()
            &&& ipv6::payload(s).take(2) == message.take(2)
            &&& ipv6::payload(s).skip(4) == message.skip(4)
            &&& !offload ==> control6::checksum_ok(ipv6::payload(s), src_addr, dst_addr)
            &&& offload ==> be16(ipv6::payload(s), 2) == 0
            &&& s[6] == 58
            &&& s[7] == 255
            &&& be128(s, 8) == src_addr.bits
            &&& be128(s, 24) == dst_addr.bits
            &&& s.len() == 40 + message.len()
            &&& s[40] == message[0] && s[41] == message[1]
            &&& s.skip(44) == message.skip(4)
        }),
{
    let filled = control6::with_checksum(message, src_addr, dst_addr, offload);
    law_ipv6_packet(src_addr, dst_addr, Protocol(ICMPV6), 0xff, filled);
    control6::law_filled_checksum(message, src_addr, dst_addr);
    assert(filled.take(2) =~= message.take(2));
    assert(filled.skip(4) =~= message.skip(4));
    let s = ndisc_packet(message, src_addr, dst_addr, offload);
    assert(s.skip(40) == filled);
    assert(s[40] == s.skip(40)[0] && s[41] == s.skip(40)[1]);
    assert(s.skip(44) =~= s.skip(40).skip(4));
}

/// Where the parts of a neighbor discovery packet are: the type and the code of the message behind
/// the IPv6 header, then the flags, what it is about, and the link-layer address of its sender.
pub proof fn law_ndisc_octets(
    msg_type: u8,
    flags: u8,
    target_addr: ipv6::Address,
    option_type: u8,
    hardware_addr: Seq<u8>,
    src_addr: ipv6::Address,
    dst_addr: ipv6::Address,
    offload: bool,
)
    requires
        hardware_addr.len() <= 8,
    ensures
        ({
            let s = ndisc_packet(
                ndisc_message(msg_type, flags, target_addr, option_type, hardware_addr),
                src_addr,
                dst_addr,
                offload,
            );
            &&& s[6] == 58
            &&& s[7] == 255
            &&& be128(s, 8) == src_addr.bits
            &&& be128(s, 24) == dst_addr.bits
            &&& s[40] == msg_type
            &&& s[41] == 0
            &&& s[44] == flags
            &&& s[45] == 0 && s[46] == 0 && s[47] == 0
            &&& be128(s, 48) == target_addr.bits
            &&& s[64] == option_type
            &&& s.len() == 64 + 8 * s[65]
            &&& hardware_addr.is_prefix_of(s.skip(66))
        }),
{
    let message = ndisc_message(msg_type, flags, target_addr, option_type, hardware_addr);
    let octets = ipv6::address_octets(target_addr.bits);
    let option = lladdr_option(option_type, hardware_addr);
    ipv6::lemma_octets_len(target_addr);
    lemma_be128_octets128(target_addr.bits as int);
    law_lladdr_option(option_type, hardware_addr);
    law_ndisc_packet(message, src_addr, dst_addr, offload);
    let s = ndisc_packet(message, src_addr, dst_addr, offload);
    assert forall|k: int| 44 <= k < s.len() implies #[trigger] s[k] == message[k - 40] by {
        assert(s.skip(44)[k - 44] == message.skip(4)[k - 44]);
    }
    assert(s.skip(48) =~= octets + option);
    assert(s.skip(64) =~= option);
    assert(s[64] == option[0] && s[65] == option[1]);
    assert forall|k: int| 0 <= k < 16 implies #[trigger] octets[k] == s[48 + k] by {
        assert(s.skip(48)[k] == octets[k]);
    }
    ipv6::lemma_be128_shift(s, 48, octets);
    assert(s.skip(66) =~= option.skip(2));
    assert(s.skip(66).take(hardware_addr.len() as int) =~= hardware_addr);
}

/// An IP packet that was built parses as what it was built from. There is none between addresses
/// of different families.
pub proof fn law_ip_packet(
    src_addr: IpAddress,
    dst_addr: IpAddress,
    next_header: Protocol,
    hop_limit: u8,
    offload: bool,
    payload: Seq<u8>,
)
    requires
        payload.len() <= 0xffff - 20,
    ensures
        ip_packet(src_addr, dst_addr, next_header, hop_limit, offload, payload) is Some <==> (
        src_addr is Ipv4 <==> dst_addr is Ipv4),
        ip_packet(src_addr, dst_addr, next_header, hop_limit, offload, payload) matches Some(s)
            ==> match (src_addr, dst_addr) {
            (IpAddress::Ipv4(src), IpAddress::Ipv4(dst)) => {
                &&& ipv4::well_formed(s)
                &&& s[0] == 0x45
                &&& s[8] == hop_limit
                &&& s[9] == next_header.0
                &&& be32(s, 12) == src.bits
                &&& be32(s, 16) == dst.bits
                &&& s.skip(20) == payload
                &&& be16(s, 6) % 0x2000 == 0 && be16(s, 6) / 0x2000 % 2 == 0
                &&& !offload ==> fold(word_sum(s.take(20))) == 0xffff
                &&& offload ==> be16(s, 10) == 0
            },
            (IpAddress::Ipv6(src), IpAddress::Ipv6(dst)) => {
                &&& ipv6::well_formed(s)
                &&& s[0] / 16 == 6
                &&& s[6] == next_header.0
                &&& s[7] == hop_limit
                &&& be128(s, 8) == src.bits
                &&& be128(s, 24) == dst.bits
                &&& s.skip(40) == payload
            },
            _ => false,
        },
{
    match (src_addr, dst_addr) {
        (IpAddress::Ipv4(src), IpAddress::Ipv4(dst)) => {
            law_ipv4_packet(src, dst, next_header, hop_limit, offload, payload);
        },
        (IpAddress::Ipv6(src), IpAddress::Ipv6(dst)) => {
            law_ipv6_packet(src, dst, next_header, hop_limit, payload);
        },
        _ => {},
    }
}

/// The types of the frames that carry IPv4 and IPv6 packets.
pub proof fn law_ethertype(addr: IpAddress)
    ensures
        addr is Ipv4 ==> ethertype_of(addr).0 == 0x0800,
        addr is Ipv6 ==> ethertype_of(addr).0 == 0x86dd,
{
}

} // verus!

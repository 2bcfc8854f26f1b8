//! Address Resolution Protocol packets, for IPv4 over Ethernet.

use vstd::prelude::*;

use super::ethernet::{Address as EthernetAddress, ETHERTYPE_IPV4};
use super::ipv4;
use crate::endian::{be16, be32, lemma_be32_octets32, octets16, octets32, read_u16, read_u32};

verus! {

/// The length of a packet.
pub const BUFFER_LEN: usize = 28;

/// Hardware type: Ethernet.
pub const HARDWARE_ETHERNET: u16 = 1;

/// Operation: a request.
pub const OPERATION_REQUEST: u16 = 1;

/// Operation: a reply.
pub const OPERATION_REPLY: u16 = 2;

/// A packet that resolves IPv4 addresses to Ethernet addresses.
#[derive(Debug, Clone, Copy)]
pub struct Message {
    /// The operation.
    pub operation: u16,
    /// The Ethernet address of the sender.
    pub source_hardware_addr: EthernetAddress,
    /// The IPv4 address of the sender.
    pub source_protocol_addr: ipv4::Address,
    /// The Ethernet address of the target.
    pub target_hardware_addr: EthernetAddress,
    /// The IPv4 address of the target.
    pub target_protocol_addr: ipv4::Address,
}

/// The octets of a packet.
#[verifier::opaque]
pub open spec fn octets(
    operation: u16,
    source_hardware_addr: Seq<u8>,
    source_protocol_addr: ipv4::Address,
    target_hardware_addr: Seq<u8>,
    target_protocol_addr: ipv4::Address,
) -> Seq<u8> {
    octets16(HARDWARE_ETHERNET as int) + octets16(ETHERTYPE_IPV4 as int) + seq![6u8, 4u8]
        + octets16(operation as int) + source_hardware_addr + octets32(
        source_protocol_addr.bits as int,
    ) + target_hardware_addr + octets32(target_protocol_addr.bits as int)
}

/// Whether `s` starts with a packet that resolves IPv4 addresses to Ethernet addresses.
pub open spec fn well_formed(s: Seq<u8>) -> bool {
    &&& s.len() >= BUFFER_LEN
    &&& be16(s, 0) == HARDWARE_ETHERNET
    &&& be16(s, 2) == ETHERTYPE_IPV4
    &&& s[4] == 6
    &&& s[5] == 4
}

/// Whether `m` is the packet that `s` starts with.
pub open spec fn holds(s: Seq<u8>, m: Message) -> bool {
    &&& m.operation == be16(s, 6)
    &&& m.source_hardware_addr@ == s.subrange(8, 14)
    &&& m.source_protocol_addr.bits == be32(s, 14)
    &&& m.target_hardware_addr@ == s.subrange(18, 24)
    &&& m.target_protocol_addr.bits == be32(s, 24)
}

impl Message {
    /// The octets of the packet.
    pub open spec fn spec_octets(self) -> Seq<u8> {
        octets(
            self.operation,
            self.source_hardware_addr@,
            self.source_protocol_addr,
            self.target_hardware_addr@,
            self.target_protocol_addr,
        )
    }

    /// Parse a packet. `None` if it is cut short, or does not resolve IPv4 addresses to
    /// Ethernet addresses.
    pub fn parse(data: &[u8]) -> (message: Option<Message>)
        ensures
            message is Some <==> well_formed(data@),
            message matches Some(m) ==> holds(data@, m),
    {
        if data.len() < BUFFER_LEN || read_u16(data, 0) != HARDWARE_ETHERNET || read_u16(data, 2)
            != ETHERTYPE_IPV4 || data[4] != 6 || data[5] != 4 {
            return None;
        }
        Some(
            Message {
                operation: read_u16(data, 6),
                source_hardware_addr: EthernetAddress::from_bytes(&data[8..14]),
                source_protocol_addr: ipv4::Address::from_bits(read_u32(data, 14)),
                target_hardware_addr: EthernetAddress::from_bytes(&data[18..24]),
                target_protocol_addr: ipv4::Address::from_bits(read_u32(data, 24)),
            },
        )
    }

    /// Build a packet.
    pub fn emit(&self) -> (packet: Vec<u8>)
        ensures
            packet@ == self.spec_octets(),
    {
        let mut packet: Vec<u8> = vec![0, 1, 8, 0, 6, 4];
        packet.push((self.operation / 0x100) as u8);
        packet.push((self.operation % 0x100) as u8);
        packet.extend_from_slice(self.source_hardware_addr.as_bytes());
        packet.extend_from_slice(&self.source_protocol_addr.octets());
        packet.extend_from_slice(self.target_hardware_addr.as_bytes());
        packet.extend_from_slice(&self.target_protocol_addr.octets());
        reveal(octets);
        assert(packet@ =~= self.spec_octets());
        packet
    }
}

/// A packet that was built parses as what it was built from.
pub proof fn law_round_trip(m: Message)
    ensures
        well_formed(m.spec_octets()),
        holds(m.spec_octets(), m),
{
    reveal(octets);
    let s = m.spec_octets();
    assert(s.subrange(8, 14) =~= m.source_hardware_addr@);
    assert(s.subrange(18, 24) =~= m.target_hardware_addr@);
    lemma_be32_octets32(m.source_protocol_addr.bits as int);
    lemma_be32_octets32(m.target_protocol_addr.bits as int);
    assert(s.subrange(14, 18) =~= octets32(m.source_protocol_addr.bits as int));
    assert(s.subrange(24, 28) =~= octets32(m.target_protocol_addr.bits as int));
}

} // verus!

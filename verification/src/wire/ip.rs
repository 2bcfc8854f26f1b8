//! What IPv4 and IPv6 have in common.

use vstd::prelude::*;

use super::{ipv4, ipv6};
use super::{Error, Result};

verus! {

/// Protocol number: IPv6 hop-by-hop options.
pub const HOP_BY_HOP: u8 = 0;

/// Protocol number: ICMP.
pub const ICMP: u8 = 1;

/// Protocol number: IGMP.
pub const IGMP: u8 = 2;

/// Protocol number: TCP.
pub const TCP: u8 = 6;

/// Protocol number: UDP.
pub const UDP: u8 = 17;

/// Protocol number: ICMPv6.
pub const ICMPV6: u8 = 58;

/// An IP protocol number.
#[derive(Debug, Clone, Copy, PartialEq, Eq, Structural, Hash, PartialOrd, Ord)]
pub struct Protocol(pub u8);

impl From<u8> for Protocol {
    fn from(value: u8) -> (protocol: Protocol) {
        Protocol(value)
    }
}

impl vstd::std_specs::convert::FromSpecImpl<u8> for Protocol {
    open spec fn obeys_from_spec() -> bool {
        true
    }

    open spec fn from_spec(value: u8) -> Protocol {
        Protocol(value)
    }
}

/// An IP version.
#[derive(Debug, Clone, Copy, PartialEq, Eq, Structural, Hash, PartialOrd, Ord)]
pub enum Version {
    /// IPv4.
    Ipv4,
    /// IPv6.
    Ipv6,
}

/// The version that the first octet of a packet names.
pub open spec fn version_of(packet: Seq<u8>) -> Option<Version> {
    if packet.len() == 0 {
        None
    } else if packet[0] / 16 == 4 {
        Some(Version::Ipv4)
    } else if packet[0] / 16 == 6 {
        Some(Version::Ipv6)
    } else {
        None
    }
}

impl Version {
    /// Return the version of an IP packet stored in the provided buffer, or an error if the
    /// buffer is empty or names another version.
    pub fn of_packet(data: &[u8]) -> (version: Result<Version>)
        ensures
            version is Ok <==> version_of(data@) is Some,
            version matches Ok(v) ==> version_of(data@) == Some(v),
    {
        if data.len() == 0 {
            return Err(Error);
        }
        let nibble: u8 = data[0] / 16;
        if nibble == 4 {
            Ok(Version::Ipv4)
        } else if nibble == 6 {
            Ok(Version::Ipv6)
        } else {
            Err(Error)
        }
    }
}

/// An internetworking address.
#[derive(Debug, Clone, Copy, PartialEq, Eq, Structural, Hash, PartialOrd, Ord)]
pub enum Address {
    /// An IPv4 address.
    Ipv4(ipv4::Address),
    /// An IPv6 address.
    Ipv6(ipv6::Address),
}

impl Address {
    /// The octets of the address, the most significant one first.
    pub open spec fn octets_of(self) -> Seq<u8> {
        match self {
            Address::Ipv4(a) => ipv4::address_octets(a.bits),
            Address::Ipv6(a) => ipv6::address_octets(a.bits),
        }
    }

    /// The version of the address.
    pub open spec fn spec_version(self) -> Version {
        match self {
            Address::Ipv4(_) => Version::Ipv4,
            Address::Ipv6(_) => Version::Ipv6,
        }
    }

    /// Whether the address is unspecified.
    pub open spec fn spec_is_unspecified(self) -> bool {
        match self {
            Address::Ipv4(a) => a.bits == 0,
            Address::Ipv6(a) => a.bits == 0,
        }
    }

    /// Whether the address is an unicast address.
    pub open spec fn spec_is_unicast(self) -> bool {
        match self {
            Address::Ipv4(a) => a.spec_is_unicast(),
            Address::Ipv6(a) => a.spec_is_unicast(),
        }
    }

    /// Whether the address is a multicast group.
    pub open spec fn spec_is_multicast(self) -> bool {
        match self {
            Address::Ipv4(a) => a.spec_is_multicast(),
            Address::Ipv6(a) => a.spec_is_multicast(),
        }
    }

    /// Return the version of the address.
    pub fn version(&self) -> (version: Version)
        ensures
            version == self.spec_version(),
    {
        match self {
            Address::Ipv4(_) => Version::Ipv4,
            Address::Ipv6(_) => Version::Ipv6,
        }
    }

    /// Query whether the address is unspecified.
    pub fn is_unspecified(&self) -> (r: bool)
        ensures
            r == self.spec_is_unspecified(),
    {
        match self {
            Address::Ipv4(a) => a.is_unspecified(),
            Address::Ipv6(a) => a.is_unspecified(),
        }
    }

    /// Query whether the address is an unicast address.
    pub fn is_unicast(&self) -> (r: bool)
        ensures
            r == self.spec_is_unicast(),
    {
        match self {
            Address::Ipv4(a) => a.x_is_unicast(),
            Address::Ipv6(a) => a.x_is_unicast(),
        }
    }

    /// Query whether the address is a multicast group.
    pub fn is_multicast(&self) -> (r: bool)
        ensures
            r == self.spec_is_multicast(),
    {
        match self {
            Address::Ipv4(a) => a.is_multicast(),
            Address::Ipv6(a) => a.is_multicast(),
        }
    }
}

impl From<ipv4::Address> for Address {
    fn from(addr: ipv4::Address) -> (address: Address) {
        Address::Ipv4(addr)
    }
}

impl vstd::std_specs::convert::FromSpecImpl<ipv4::Address> for Address {
    open spec fn obeys_from_spec() -> bool {
        true
    }

    open spec fn from_spec(addr: ipv4::Address) -> Address {
        Address::Ipv4(addr)
    }
}

impl From<ipv6::Address> for Address {
    fn from(addr: ipv6::Address) -> (address: Address) {
        Address::Ipv6(addr)
    }
}

impl vstd::std_specs::convert::FromSpecImpl<ipv6::Address> for Address {
    open spec fn obeys_from_spec() -> bool {
        true
    }

    open spec fn from_spec(addr: ipv6::Address) -> Address {
        Address::Ipv6(addr)
    }
}

/// A specification of a CIDR block.
#[derive(Debug, Hash, PartialEq, Eq, Structural, PartialOrd, Ord, Clone, Copy)]
pub enum Cidr {
    /// An IPv4 block.
    Ipv4(ipv4::Cidr),
    /// An IPv6 block.
    Ipv6(ipv6::Cidr),
}

impl Cidr {
    /// The address of the block.
    pub open spec fn spec_address(self) -> Address {
        match self {
            Cidr::Ipv4(c) => Address::Ipv4(c.spec_address()),
            Cidr::Ipv6(c) => Address::Ipv6(c.spec_address()),
        }
    }

    /// Whether the block holds `addr`, which it does not if they are of different versions.
    pub open spec fn spec_contains(self, addr: Address) -> bool {
        match (self, addr) {
            (Cidr::Ipv4(c), Address::Ipv4(a)) => c.spec_contains(a),
            (Cidr::Ipv6(c), Address::Ipv6(a)) => c.spec_contains(a),
            _ => false,
        }
    }

    /// Create a CIDR block from the given address and prefix length, which is at most 32 for
    /// an IPv4 address and at most 128 for an IPv6 address.
    pub fn new(addr: Address, prefix_len: u8) -> (cidr: Cidr)
        requires
            addr is Ipv4 ==> prefix_len <= 32,
            prefix_len <= 128,
        ensures
            cidr.spec_address() == addr,
            cidr matches Cidr::Ipv4(c) ==> c.spec_prefix_len() == prefix_len,
            cidr matches Cidr::Ipv6(c) ==> c.spec_prefix_len() == prefix_len,
    {
        match addr {
            Address::Ipv4(a) => Cidr::Ipv4(ipv4::Cidr::new(a, prefix_len)),
            Address::Ipv6(a) => Cidr::Ipv6(ipv6::Cidr::new(a, prefix_len)),
        }
    }

    /// Return the address of this CIDR block.
    pub fn address(&self) -> (address: Address)
        ensures
            address == self.spec_address(),
    {
        match self {
            Cidr::Ipv4(c) => Address::Ipv4(c.address()),
            Cidr::Ipv6(c) => Address::Ipv6(c.address()),
        }
    }

    /// Query whether the subnetwork described by this CIDR block contains the given address.
    pub fn contains_addr(&self, addr: &Address) -> (r: bool)
        ensures
            r == self.spec_contains(*addr),
    {
        match (self, addr) {
            (Cidr::Ipv4(c), Address::Ipv4(a)) => c.contains_addr(a),
            (Cidr::Ipv6(c), Address::Ipv6(a)) => c.contains_addr(a),
            _ => false,
        }
    }
}

/// An internet endpoint address: an address and a port.
#[derive(Debug, Clone, Copy, PartialEq, Eq, Structural, Hash, PartialOrd, Ord)]
pub struct Endpoint {
    /// The address of the endpoint.
    pub addr: Address,
    /// The port of the endpoint.
    pub port: u16,
}

impl Endpoint {
    /// Create an endpoint address from a given address and port.
    pub fn new(addr: Address, port: u16) -> (endpoint: Endpoint)
        ensures
            endpoint.addr == addr,
            endpoint.port == port,
    {
        Endpoint { addr, port }
    }
}

/// An internet endpoint address for listening: a missing address stands for every address.
#[derive(Debug, Clone, Copy, PartialEq, Eq, Structural, Hash, PartialOrd, Ord)]
pub struct ListenEndpoint {
    /// The address to listen on.
    pub addr: Option<Address>,
    /// The port to listen on.
    pub port: u16,
}

/// The version of a packet is the high half of its first octet.
pub proof fn law_version(packet: Seq<u8>)
    ensures
        version_of(packet) == Some(Version::Ipv4) <==> packet.len() > 0 && 0x40 <= packet[0]
            <= 0x4f,
        version_of(packet) == Some(Version::Ipv6) <==> packet.len() > 0 && 0x60 <= packet[0]
            <= 0x6f,
{
}

/// An address is of the kind that it is among the addresses of its version, and a block holds
/// addresses of its version only.
pub proof fn law_address(v4: ipv4::Address, v6: ipv6::Address, c4: ipv4::Cidr, c6: ipv6::Cidr)
    ensures
        Address::Ipv4(v4).spec_is_unspecified() <==> v4.bits == 0,
        Address::Ipv6(v6).spec_is_unspecified() <==> v6.bits == 0,
        Address::Ipv4(v4).spec_is_unicast() <==> v4.spec_is_unicast(),
        Address::Ipv6(v6).spec_is_unicast() <==> v6.spec_is_unicast(),
        Address::Ipv4(v4).spec_is_multicast() <==> v4.spec_is_multicast(),
        Address::Ipv6(v6).spec_is_multicast() <==> v6.spec_is_multicast(),
        Cidr::Ipv4(c4).spec_contains(Address::Ipv4(v4)) <==> c4.spec_contains(v4),
        Cidr::Ipv6(c6).spec_contains(Address::Ipv6(v6)) <==> c6.spec_contains(v6),
        !Cidr::Ipv4(c4).spec_contains(Address::Ipv6(v6)),
        !Cidr::Ipv6(c6).spec_contains(Address::Ipv4(v4)),
{
}

} // verus!

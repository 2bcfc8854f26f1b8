//! Network interfaces.

use vstd::prelude::*;

use crate::driver::{ChecksumCapabilities, LinkState, Medium};
use crate::endian::octets128;
use crate::wire::ip::{Address as IpAddress, Cidr as IpCidr};
use crate::wire::prefix::{last_of_block, law_block_bounds, lemma_pow2_32};
use crate::wire::HardwareAddress;
use crate::wire::{ipv4, ipv6};

verus! {

/// A handle to an interface of a stack.
#[derive(Debug, Clone, Copy, PartialEq, Eq, Structural, Hash, PartialOrd, Ord)]
pub struct IfaceHandle {
    /// The slot of the interface.
    pub index: usize,
}

impl IfaceHandle {
    /// Make a handle of a slot.
    pub fn new(index: usize) -> (handle: IfaceHandle)
        ensures
            handle.index == index,
    {
        IfaceHandle { index }
    }

    /// The slot of the interface.
    pub fn index(self) -> (index: usize)
        ensures
            index == self.index,
    {
        self.index
    }
}

/// What the stack knows about an interface.
pub struct IfaceState {
    /// The handle of the interface.
    pub handle: IfaceHandle,
    /// The kind of link.
    pub medium: Medium,
    /// The hardware address.
    pub hardware_addr: HardwareAddress,
    /// The assigned addresses, with the networks that they are on.
    pub ip_addrs: Vec<IpCidr>,
    /// The multicast groups that were joined, besides those that every host is in.
    pub multicast_groups: Vec<IpAddress>,
    /// The largest IP packet that fits in a frame.
    pub ip_mtu: usize,
    /// Which checksums the device handles.
    pub checksum: ChecksumCapabilities,
    /// The state of the link when it was last looked at.
    pub last_link_state: LinkState,
}

/// Whether `addr` is the broadcast address of the network `cidr`.
pub open spec fn is_subnet_broadcast(cidr: IpCidr, addr: ipv4::Address) -> bool {
    match cidr {
        IpCidr::Ipv4(c) => c.spec_prefix_len() < 31 && addr.bits == last_of_block(
            32,
            c.spec_prefix_len(),
            c.spec_address().bits as int,
        ),
        IpCidr::Ipv6(_) => false,
    }
}

/// Whether `addr` is the solicited-node address of the address of `cidr`.
pub open spec fn is_solicited_node_of(cidr: IpCidr, addr: ipv6::Address) -> bool {
    match cidr {
        IpCidr::Ipv4(_) => false,
        IpCidr::Ipv6(c) => c.spec_address().spec_is_unicast()
            && c.spec_address().spec_solicited_node() == addr,
    }
}

/// The first IPv4 address from position `from` on.
pub open spec fn first_ipv4(cidrs: Seq<IpCidr>, from: int) -> Option<ipv4::Address>
    decreases cidrs.len() - from,
{
    if from < 0 || from >= cidrs.len() {
        None
    } else {
        match cidrs[from] {
            IpCidr::Ipv4(c) => Some(c.spec_address()),
            IpCidr::Ipv6(_) => first_ipv4(cidrs, from + 1),
        }
    }
}

/// The multicast groups that every host is in: all systems, and all nodes.
pub open spec fn is_host_group(addr: IpAddress) -> bool {
    match addr {
        IpAddress::Ipv4(a) => a.bits == 0xe000_0001,
        IpAddress::Ipv6(a) => a.bits == 0xff02_0000_0000_0000_0000_0000_0000_0001,
    }
}

impl IfaceState {
    /// Whether the address is assigned to the interface.
    pub open spec fn spec_has_ip_addr(self, addr: IpAddress) -> bool {
        exists|i: int|
            0 <= i < self.ip_addrs@.len() && #[trigger] self.ip_addrs@[i].spec_address() == addr
    }

    /// Whether the address is in one of the networks of the interface.
    pub open spec fn spec_in_same_network(self, addr: IpAddress) -> bool {
        exists|i: int|
            0 <= i < self.ip_addrs@.len() && #[trigger] self.ip_addrs@[i].spec_contains(addr)
    }

    /// Whether the address is the limited broadcast address, or the broadcast address of one
    /// of the networks of the interface.
    pub open spec fn spec_is_broadcast_v4(self, addr: ipv4::Address) -> bool {
        addr.bits == 0xffff_ffff || exists|i: int|
            0 <= i < self.ip_addrs@.len() && is_subnet_broadcast(#[trigger] self.ip_addrs@[i], addr)
    }

    /// Whether the address is a broadcast address on the interface.
    pub open spec fn spec_is_broadcast(self, addr: IpAddress) -> bool {
        match addr {
            IpAddress::Ipv4(a) => self.spec_is_broadcast_v4(a),
            IpAddress::Ipv6(_) => false,
        }
    }

    /// Whether the address is an unicast address, and no broadcast address on the interface.
    pub open spec fn spec_is_unicast_v4(self, addr: ipv4::Address) -> bool {
        addr.spec_is_unicast() && !self.spec_is_broadcast_v4(addr)
    }

    /// Whether the interface is in the multicast group.
    pub open spec fn spec_has_multicast_group(self, addr: IpAddress) -> bool {
        is_host_group(addr) || self.multicast_groups@.contains(addr)
    }

    /// Whether the address is the solicited-node address of an address of the interface.
    pub open spec fn spec_has_solicited_node(self, addr: ipv6::Address) -> bool {
        exists|i: int|
            0 <= i < self.ip_addrs@.len() && is_solicited_node_of(
                #[trigger] self.ip_addrs@[i],
                addr,
            )
    }

    /// Query whether the address is assigned to the interface.
    pub fn has_ip_addr(&self, addr: IpAddress) -> (r: bool)
        ensures
            r == self.spec_has_ip_addr(addr),
    {
        let n: usize = self.ip_addrs.len();
        let mut i: usize = 0;
        while i < n
            invariant
                i <= n,
                n == self.ip_addrs@.len(),
                forall|j: int|
                    0 <= j < i ==> #[trigger] self.ip_addrs@[j].spec_address() != addr,
            decreases n - i,
        {
            if self.ip_addrs[i].address() == addr {
                return true;
            }
            i = i + 1;
        }
        false
    }

    /// Query whether the address is in one of the networks of the interface.
    pub fn in_same_network(&self, addr: &IpAddress) -> (r: bool)
        ensures
            r == self.spec_in_same_network(*addr),
    {
        let n: usize = self.ip_addrs.len();
        let mut i: usize = 0;
        while i < n
            invariant
                i <= n,
                n == self.ip_addrs@.len(),
                forall|j: int| 0 <= j < i ==> !(#[trigger] self.ip_addrs@[j].spec_contains(*addr)),
            decreases n - i,
        {
            if self.ip_addrs[i].contains_addr(addr) {
                return true;
            }
            i = i + 1;
        }
        false
    }

    /// Query whether the address is a broadcast address on the interface.
    pub fn is_broadcast_v4(&self, addr: ipv4::Address) -> (r: bool)
        ensures
            r == self.spec_is_broadcast_v4(addr),
    {
        if addr.is_broadcast() {
            return true;
        }
        let n: usize = self.ip_addrs.len();
        let mut i: usize = 0;
        while i < n
            invariant
                i <= n,
                n == self.ip_addrs@.len(),
                forall|j: int|
                    0 <= j < i ==> !is_subnet_broadcast(#[trigger] self.ip_addrs@[j], addr),
            decreases n - i,
        {
            if let IpCidr::Ipv4(cidr) = &self.ip_addrs[i] {
                if let Some(broadcast) = cidr.broadcast() {
                    if broadcast == addr {
                        assert(is_subnet_broadcast(self.ip_addrs@[i as int], addr));
                        return true;
                    }
                }
            }
            i = i + 1;
        }
        false
    }

    /// Query whether the address is a broadcast address on the interface.
    pub fn is_broadcast(&self, addr: &IpAddress) -> (r: bool)
        ensures
            r == self.spec_is_broadcast(*addr),
    {
        match addr {
            IpAddress::Ipv4(a) => self.is_broadcast_v4(*a),
            IpAddress::Ipv6(_) => false,
        }
    }

    /// Query whether the address is an unicast address on the interface.
    pub fn is_unicast_v4(&self, addr: ipv4::Address) -> (r: bool)
        ensures
            r == self.spec_is_unicast_v4(addr),
    {
        addr.x_is_unicast() && !self.is_broadcast_v4(addr)
    }

    /// The first IPv4 address of the interface.
    pub fn ipv4_addr(&self) -> (addr: Option<ipv4::Address>)
        ensures
            addr == first_ipv4(self.ip_addrs@, 0),
    {
        let n: usize = self.ip_addrs.len();
        let mut i: usize = 0;
        while i < n
            invariant
                i <= n,
                n == self.ip_addrs@.len(),
                first_ipv4(self.ip_addrs@, 0) == first_ipv4(self.ip_addrs@, i as int),
            decreases n - i,
        {
            if let IpCidr::Ipv4(cidr) = &self.ip_addrs[i] {
                return Some(cidr.address());
            }
            i = i + 1;
        }
        None
    }

    /// Query whether the interface is in the multicast group.
    pub fn has_multicast_group(&self, addr: IpAddress) -> (r: bool)
        ensures
            r == self.spec_has_multicast_group(addr),
    {
        let host = match addr {
            IpAddress::Ipv4(a) => a == ipv4::multicast_all_systems(),
            IpAddress::Ipv6(a) => a == ipv6::link_local_all_nodes(),
        };
        if host {
            return true;
        }
        let n: usize = self.multicast_groups.len();
        let mut i: usize = 0;
        while i < n
            invariant
                i <= n,
                n == self.multicast_groups@.len(),
                forall|j: int| 0 <= j < i ==> self.multicast_groups@[j] != addr,
            decreases n - i,
        {
            if self.multicast_groups[i] == addr {
                return true;
            }
            i = i + 1;
        }
        false
    }

    /// Query whether the address is the solicited-node address of an address of the
    /// interface.
    pub fn has_solicited_node(&self, addr: ipv6::Address) -> (r: bool)
        ensures
            r == self.spec_has_solicited_node(addr),
    {
        let n: usize = self.ip_addrs.len();
        let mut i: usize = 0;
        while i < n
            invariant
                i <= n,
                n == self.ip_addrs@.len(),
                forall|j: int|
                    0 <= j < i ==> !is_solicited_node_of(#[trigger] self.ip_addrs@[j], addr),
            decreases n - i,
        {
            if let IpCidr::Ipv6(cidr) = &self.ip_addrs[i] {
                let own = cidr.address();
                if own.x_is_unicast() && own.solicited_node() == addr {
                    assert(is_solicited_node_of(self.ip_addrs@[i as int], addr));
                    return true;
                }
            }
            i = i + 1;
        }
        false
    }
}

/// The link-local address that an interface gives itself: the link-local prefix and the
/// interface identifier of its hardware address, if it has one.
pub fn link_local_addr(hardware_addr: HardwareAddress) -> (addr: Option<IpCidr>)
    ensures
        addr is Some <==> hardware_addr.spec_eui_64() is Some,
        addr matches Some(cidr) ==> {
            &&& cidr matches IpCidr::Ipv6(c) && c.spec_prefix_len() == 64 && octets128(
                c.spec_address().bits as int,
            ) == seq![0xfeu8, 0x80, 0, 0, 0, 0, 0, 0] + hardware_addr.spec_eui_64()->0
                && c.spec_address().spec_is_unicast()
        },
{
    match hardware_addr.as_eui_64() {
        None => None,
        Some(e) => {
            let octets: [u8; 16] = [
                0xfe, 0x80, 0, 0, 0, 0, 0, 0, e[0], e[1], e[2], e[3], e[4], e[5], e[6], e[7],
            ];
            let address = ipv6::Address::from_octets(octets);
            proof {
                ipv6::law_address_octets(address, octets@);
                assert(octets@ =~= seq![0xfeu8, 0x80, 0, 0, 0, 0, 0, 0] + e@);
                ipv6::lemma_first_octet(address);
            }
            Some(IpCidr::Ipv6(ipv6::Cidr::new(address, 64)))
        },
    }
}

/// Every address that is assigned to the interface is its own and no other is, and an address is in
/// the same network exactly if the network of one of the assigned addresses holds it.
pub proof fn law_own_addresses(iface: IfaceState, addr: IpAddress)
    ensures
        forall|i: int|
            0 <= i < iface.ip_addrs@.len() ==> iface.spec_has_ip_addr(
                (#[trigger] iface.ip_addrs@[i]).spec_address(),
            ),
        forall|i: int|
            0 <= i < iface.ip_addrs@.len() && (#[trigger] iface.ip_addrs@[i]).spec_contains(addr)
                ==> iface.spec_in_same_network(addr),
        (forall|i: int|
            0 <= i < iface.ip_addrs@.len() ==> (#[trigger] iface.ip_addrs@[i]).spec_address()
                != addr) ==> !iface.spec_has_ip_addr(addr),
        (forall|i: int|
            0 <= i < iface.ip_addrs@.len() ==> !(#[trigger] iface.ip_addrs@[i]).spec_contains(addr))
            ==> !iface.spec_in_same_network(addr),
{
}

/// The broadcast address of a network is the greatest address that the network holds. Networks of
/// one or two addresses do not have one.
proof fn lemma_subnet_broadcast(c: ipv4::Cidr, addr: ipv4::Address)
    ensures
        is_subnet_broadcast(IpCidr::Ipv4(c), addr) <==> {
            &&& c.spec_prefix_len() < 31
            &&& c.spec_contains(addr)
            &&& forall|other: ipv4::Address| #[trigger]
                c.spec_contains(other) ==> other.bits <= addr.bits
        },
{
    if c.spec_prefix_len() < 31 {
        let p = c.spec_prefix_len();
        let a = c.spec_address().bits as int;
        let last = last_of_block(32, p, a);
        lemma_pow2_32();
        law_block_bounds(32, p, a, addr.bits as int);
        let greatest = ipv4::Address { bits: last as u32 };
        law_block_bounds(32, p, a, last);
        assert(c.spec_contains(greatest));
        assert forall|other: ipv4::Address| #[trigger] c.spec_contains(other) implies other.bits
            <= last by {
            law_block_bounds(32, p, a, other.bits as int);
        }
    }
}

/// Which addresses are broadcast addresses on an interface: `255.255.255.255`, and the greatest
/// address of each network of the interface that holds more than two.
pub proof fn law_broadcast(iface: IfaceState, addr: ipv4::Address)
    ensures
        addr.bits == 0xffff_ffff ==> iface.spec_is_broadcast_v4(addr),
        forall|i: int|
            #![trigger iface.ip_addrs@[i]]
            0 <= i < iface.ip_addrs@.len() ==> (iface.ip_addrs@[i] matches IpCidr::Ipv4(c)
                ==> c.spec_prefix_len() < 31 && c.spec_contains(addr) && (forall|
                other: ipv4::Address,
            | #[trigger]
                c.spec_contains(other) ==> other.bits <= addr.bits) ==> iface.spec_is_broadcast_v4(
                addr,
            )),
        iface.spec_is_broadcast_v4(addr) && addr.bits != 0xffff_ffff ==> exists|i: int|
            {
                &&& 0 <= i < iface.ip_addrs@.len()
                &&& #[trigger] iface.ip_addrs@[i] matches IpCidr::Ipv4(c)
                &&& c.spec_prefix_len() < 31
                &&& c.spec_contains(addr)
                &&& forall|other: ipv4::Address| #[trigger]
                    c.spec_contains(other) ==> other.bits <= addr.bits
            },
        iface.spec_is_broadcast(IpAddress::Ipv4(addr)) <==> iface.spec_is_broadcast_v4(addr),
        forall|a: IpAddress| a is Ipv6 ==> !(#[trigger] iface.spec_is_broadcast(a)),
        iface.spec_is_unicast_v4(addr) <==> addr.bits != 0 && addr.bits != 0xffff_ffff && !(
        0xe000_0000 <= addr.bits <= 0xefff_ffff) && !iface.spec_is_broadcast_v4(addr),
{
    assert forall|i: int|
        #![trigger iface.ip_addrs@[i]]
        0 <= i < iface.ip_addrs@.len() implies (iface.ip_addrs@[i] matches IpCidr::Ipv4(c)
        ==> c.spec_prefix_len() < 31 && c.spec_contains(addr) && (forall|other: ipv4::Address| #[trigger]
        c.spec_contains(other) ==> other.bits <= addr.bits) ==> iface.spec_is_broadcast_v4(
        addr,
    )) by {
        if let IpCidr::Ipv4(c) = iface.ip_addrs@[i] {
            lemma_subnet_broadcast(c, addr);
        }
    }
    if iface.spec_is_broadcast_v4(addr) && addr.bits != 0xffff_ffff {
        let i = choose|i: int|
            0 <= i < iface.ip_addrs@.len() && is_subnet_broadcast(
                #[trigger] iface.ip_addrs@[i],
                addr,
            );
        if let IpCidr::Ipv4(c) = iface.ip_addrs@[i] {
            lemma_subnet_broadcast(c, addr);
        }
    }
}

/// The groups that an interface is in: `224.0.0.1`, `ff02::1`, and those that were joined.
pub proof fn law_groups(iface: IfaceState, addr: IpAddress)
    ensures
        iface.spec_has_multicast_group(IpAddress::Ipv4(ipv4::Address { bits: 0xe000_0001 })),
        iface.spec_has_multicast_group(
            IpAddress::Ipv6(ipv6::Address { bits: 0xff02_0000_0000_0000_0000_0000_0000_0001 }),
        ),
        iface.multicast_groups@.contains(addr) ==> iface.spec_has_multicast_group(addr),
        iface.spec_has_multicast_group(addr) ==> iface.multicast_groups@.contains(addr) || addr
            == IpAddress::Ipv4(ipv4::Address { bits: 0xe000_0001 }) || addr == IpAddress::Ipv6(
            ipv6::Address { bits: 0xff02_0000_0000_0000_0000_0000_0000_0001 },
        ),
{
}

/// An interface listens to the solicited-node group of each of its unicast IPv6 addresses, which is
/// `ff02::1:ff00:0` and the last 24 bits of the address, and to no other one.
pub proof fn law_solicited_nodes(iface: IfaceState, addr: ipv6::Address)
    ensures
        forall|i: int|
            #![trigger iface.ip_addrs@[i]]
            0 <= i < iface.ip_addrs@.len() ==> (iface.ip_addrs@[i] matches IpCidr::Ipv6(c)
                ==> c.spec_address().spec_is_unicast() && addr.bits
                == 0xff02_0000_0000_0000_0000_0001_ff00_0000 + c.spec_address().bits % 0x100_0000
                ==> iface.spec_has_solicited_node(addr)),
        iface.spec_has_solicited_node(addr) ==> exists|i: int|
            {
                &&& 0 <= i < iface.ip_addrs@.len()
                &&& #[trigger] iface.ip_addrs@[i] matches IpCidr::Ipv6(c)
                &&& c.spec_address().spec_is_unicast()
                &&& addr.bits == 0xff02_0000_0000_0000_0000_0001_ff00_0000 + c.spec_address().bits
                    % 0x100_0000
            },
{
    assert forall|i: int|
        #![trigger iface.ip_addrs@[i]]
        0 <= i < iface.ip_addrs@.len() implies (iface.ip_addrs@[i] matches IpCidr::Ipv6(c)
        ==> c.spec_address().spec_is_unicast() && addr.bits
        == 0xff02_0000_0000_0000_0000_0001_ff00_0000 + c.spec_address().bits % 0x100_0000
        ==> iface.spec_has_solicited_node(addr)) by {
        if let IpCidr::Ipv6(c) = iface.ip_addrs@[i] {
            if addr.bits == 0xff02_0000_0000_0000_0000_0001_ff00_0000 + c.spec_address().bits
                % 0x100_0000 {
                assert(c.spec_address().spec_solicited_node() == addr);
            }
        }
    }
    if iface.spec_has_solicited_node(addr) {
        let i = choose|i: int|
            0 <= i < iface.ip_addrs@.len() && is_solicited_node_of(
                #[trigger] iface.ip_addrs@[i],
                addr,
            );
        assert(iface.ip_addrs@[i] is Ipv6);
    }
}

/// The address that an interface sends from when any of its IPv4 addresses will do is the first of
/// them, and there is none only if it has none.
pub proof fn law_first_ipv4(cidrs: Seq<IpCidr>, from: int)
    requires
        0 <= from <= cidrs.len(),
    ensures
        match first_ipv4(cidrs, from) {
            Some(addr) => exists|i: int|
                {
                    &&& from <= i < cidrs.len()
                    &&& (#[trigger] cidrs[i]).spec_address() == IpAddress::Ipv4(addr)
                    &&& forall|j: int| from <= j < i ==> #[trigger] cidrs[j] is Ipv6
                },
            None => forall|j: int| from <= j < cidrs.len() ==> #[trigger] cidrs[j] is Ipv6,
        },
    decreases cidrs.len() - from,
{
    if from < cidrs.len() {
        law_first_ipv4(cidrs, from + 1);
        match cidrs[from] {
            IpCidr::Ipv4(c) => {
                assert(cidrs[from].spec_address() == IpAddress::Ipv4(c.spec_address()));
            },
            IpCidr::Ipv6(_) => {
                if let Some(addr) = first_ipv4(cidrs, from + 1) {
                    let i = choose|i: int|
                        {
                            &&& from + 1 <= i < cidrs.len()
                            &&& (#[trigger] cidrs[i]).spec_address() == IpAddress::Ipv4(addr)
                            &&& forall|j: int|
                                from + 1 <= j < i ==> #[trigger] cidrs[j] is Ipv6
                        };
                    assert(cidrs[i].spec_address() == IpAddress::Ipv4(addr));
                    assert forall|j: int| from <= j < i implies #[trigger] cidrs[j] is Ipv6 by {}
                }
            },
        }
    }
}

} // verus!

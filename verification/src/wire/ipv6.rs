//! Internet Protocol version 6.

use vstd::arithmetic::div_mod::{
    lemma_div_denominator, lemma_fundamental_div_mod, lemma_fundamental_div_mod_converse,
};
use vstd::prelude::*;

use super::ethernet;
use super::prefix::{
    block_size_128, first_of_block, last_of_block, law_block_bounds, law_block_within,
    law_longer_prefix,
    lemma_block_size, lemma_pow2_128, prefix_mask, same_prefix,
};
use super::ip::Protocol;
use super::{Error, ParseError, Result};
use crate::endian::{be128, be16, be24, octets128, put16, put24, splice};
use crate::endian::{copy_into, read_u128, read_u16, read_u24, sub_slice_mut, write_u16, write_u24};
use crate::endian::{law_put24, lemma_be128_octets128, lemma_octets128};

verus! {

/// Minimum MTU required of all links supporting IPv6, see RFC 8200 § 5.
pub const MIN_MTU: usize = 1280;

/// Size of an IPv6 address in octets.
pub const ADDR_SIZE: usize = 16;

/// The length of an IPv6 header.
pub const HEADER_LEN: usize = 40;

/// The scope of an address, see RFC 4291 § 2.7.
#[derive(Debug, Clone, Copy, PartialEq, Eq, Structural)]
pub enum MulticastScope {
    /// Interface Local scope
    InterfaceLocal,
    /// Link local scope
    LinkLocal,
    /// Administratively configured
    AdminLocal,
    /// Single site scope
    SiteLocal,
    /// Organization scope
    OrganizationLocal,
    /// Global scope
    Global,
    /// Unknown scope
    Unknown,
}

impl From<u8> for MulticastScope {
    fn from(value: u8) -> (scope: MulticastScope) {
        match value {
            0x1 => MulticastScope::InterfaceLocal,
            0x2 => MulticastScope::LinkLocal,
            0x4 => MulticastScope::AdminLocal,
            0x5 => MulticastScope::SiteLocal,
            0x8 => MulticastScope::OrganizationLocal,
            0xE => MulticastScope::Global,
            _ => MulticastScope::Unknown,
        }
    }
}

impl vstd::std_specs::convert::FromSpecImpl<u8> for MulticastScope {
    open spec fn obeys_from_spec() -> bool {
        true
    }

    open spec fn from_spec(value: u8) -> MulticastScope {
        scope_of(value as int)
    }
}

/// The scope with the given number.
pub open spec fn scope_of(value: int) -> MulticastScope {
    if value == 0x1 {
        MulticastScope::InterfaceLocal
    } else if value == 0x2 {
        MulticastScope::LinkLocal
    } else if value == 0x4 {
        MulticastScope::AdminLocal
    } else if value == 0x5 {
        MulticastScope::SiteLocal
    } else if value == 0x8 {
        MulticastScope::OrganizationLocal
    } else if value == 0xE {
        MulticastScope::Global
    } else {
        MulticastScope::Unknown
    }
}

/// An IPv6 address.
#[derive(Debug, Clone, Copy, PartialEq, Eq, Structural, Hash, PartialOrd, Ord)]
pub struct Address {
    /// The address as a number: its first octet is the most significant one.
    pub bits: u128,
}

/// The octets of an IPv6 address, the most significant one first.
pub open spec fn address_octets(bits: u128) -> Seq<u8> {
    octets128(bits as int)
}

/// The IPv6 address with the given octets.
pub open spec fn address_of(octets: Seq<u8>) -> Address {
    Address { bits: be128(octets, 0) as u128 }
}

/// Splitting an address into octets and putting it together again, in either order, gives
/// back what was started from.
pub proof fn law_address_octets(address: Address, octets: Seq<u8>)
    requires
        octets.len() == 16,
    ensures
        address_of(address_octets(address.bits)) == address,
        address_octets(address_of(octets).bits) == octets,
{
    lemma_be128_octets128(address.bits as int);
    lemma_octets128(octets, 0);
    assert(octets.subrange(0, 16) =~= octets);
}

/// An address has sixteen octets.
pub(crate) proof fn lemma_octets_len(address: Address)
    ensures
        address_octets(address.bits).len() == 16,
{
}

/// An address whose first octet is neither zero nor all ones is an unicast address.
pub(crate) proof fn lemma_first_octet(address: Address)
    ensures
        address_octets(address.bits)[0] == address.bits / 0x100_0000_0000_0000_0000_0000_0000_0000,
        0 < address_octets(address.bits)[0] < 0xff ==> address.spec_is_unicast(),
{
    let v = address.bits as int;
    lemma_div_denominator(v, 0x1_0000_0000_0000_0000_0000_0000, 0x100_0000);
}

/// The prefix of the solicited-node multicast addresses, 104 bits long.
pub open spec fn solicited_node_prefix() -> int {
    0xff02_0000_0000_0000_0000_0001_ff
}

impl Address {
    /// Whether the address is a multicast group.
    pub open spec fn spec_is_multicast(self) -> bool {
        self.bits / 0x100_0000_0000_0000_0000_0000_0000_0000 == 0xff
    }

    /// Whether the address is neither a multicast group nor the unspecified address.
    pub open spec fn spec_is_unicast(self) -> bool {
        !(self.spec_is_multicast() || self.bits == 0)
    }

    /// Whether the address is in the link-local scope: its first 64 bits are `fe80::`.
    pub open spec fn spec_is_link_local(self) -> bool {
        self.bits / 0x1_0000_0000_0000_0000 == 0xfe80_0000_0000_0000
    }

    /// Whether the address is a unique local address, in `fc00::/7`.
    pub open spec fn spec_is_unique_local(self) -> bool {
        self.bits / 0x200_0000_0000_0000_0000_0000_0000_0000 == 0x7e
    }

    /// Whether the address is a global unicast address, in `2000::/3`.
    pub open spec fn spec_is_global_unicast(self) -> bool {
        self.bits / 0x2000_0000_0000_0000_0000_0000_0000_0000 == 1
    }

    /// Whether the address is a solicited-node multicast address.
    pub open spec fn spec_is_solicited_node_multicast(self) -> bool {
        self.bits / 0x100_0000 == solicited_node_prefix()
    }

    /// The solicited-node multicast address of an address: it has the same last 24 bits.
    pub open spec fn spec_solicited_node(self) -> Address {
        Address { bits: (solicited_node_prefix() * 0x100_0000 + self.bits % 0x100_0000) as u128 }
    }

    /// Construct an address from its eight 16-bit groups.
    pub fn new(a: u16, b: u16, c: u16, d: u16, e: u16, f: u16, g: u16, h: u16) -> (address: Address)
        ensures
            address.bits == a * 0x1_0000_0000_0000_0000_0000_0000_0000 + b
                * 0x1_0000_0000_0000_0000_0000_0000 + c * 0x1_0000_0000_0000_0000_0000 + d
                * 0x1_0000_0000_0000_0000 + e * 0x1_0000_0000_0000 + f * 0x1_0000_0000 + g
                * 0x1_0000 + h,
    {
        Address {
            bits: a as u128 * 0x1_0000_0000_0000_0000_0000_0000_0000 + b as u128
                * 0x1_0000_0000_0000_0000_0000_0000 + c as u128 * 0x1_0000_0000_0000_0000_0000
                + d as u128 * 0x1_0000_0000_0000_0000 + e as u128 * 0x1_0000_0000_0000 + f as u128
                * 0x1_0000_0000 + g as u128 * 0x1_0000 + h as u128,
        }
    }

    /// Construct an address from its octets.
    pub fn from_octets(octets: [u8; 16]) -> (address: Address)
        ensures
            address == address_of(octets@),
    {
        Address { bits: read_u128(&octets, 0) }
    }

    /// The octets of the address.
    pub fn octets(&self) -> (octets: [u8; 16])
        ensures
            octets@ == address_octets(self.bits),
    {
        let a: u32 = (self.bits / 0x1_0000_0000_0000_0000_0000_0000) as u32;
        let b: u32 = (self.bits / 0x1_0000_0000_0000_0000 % 0x1_0000_0000) as u32;
        let c: u32 = (self.bits / 0x1_0000_0000 % 0x1_0000_0000) as u32;
        let d: u32 = (self.bits % 0x1_0000_0000) as u32;
        let octets: [u8; 16] = [
            (a / 0x100_0000) as u8,
            (a / 0x1_0000 % 0x100) as u8,
            (a / 0x100 % 0x100) as u8,
            (a % 0x100) as u8,
            (b / 0x100_0000) as u8,
            (b / 0x1_0000 % 0x100) as u8,
            (b / 0x100 % 0x100) as u8,
            (b % 0x100) as u8,
            (c / 0x100_0000) as u8,
            (c / 0x1_0000 % 0x100) as u8,
            (c / 0x100 % 0x100) as u8,
            (c % 0x100) as u8,
            (d / 0x100_0000) as u8,
            (d / 0x1_0000 % 0x100) as u8,
            (d / 0x100 % 0x100) as u8,
            (d % 0x100) as u8,
        ];
        assert(octets@ =~= address_octets(self.bits));
        octets
    }

    /// The unspecified address, `::`.
    pub fn unspecified() -> (address: Address)
        ensures
            address.bits == 0,
    {
        Address { bits: 0 }
    }

    /// The loopback address, `::1`.
    pub fn localhost() -> (address: Address)
        ensures
            address.bits == 1,
    {
        Address { bits: 1 }
    }

    /// Query whether the address is the unspecified address.
    pub fn is_unspecified(&self) -> (r: bool)
        ensures
            r == (self.bits == 0),
    {
        self.bits == 0
    }

    /// Query whether the address is the loopback address.
    pub fn is_loopback(&self) -> (r: bool)
        ensures
            r == (self.bits == 1),
    {
        self.bits == 1
    }

    /// Query whether the address is a multicast group, in `ff00::/8`.
    pub fn is_multicast(&self) -> (r: bool)
        ensures
            r == self.spec_is_multicast(),
    {
        self.bits / 0x100_0000_0000_0000_0000_0000_0000_0000 == 0xff
    }

    /// Query whether the address is a unique local address.
    pub fn is_unique_local(&self) -> (r: bool)
        ensures
            r == self.spec_is_unique_local(),
    {
        self.bits / 0x200_0000_0000_0000_0000_0000_0000_0000 == 0x7e
    }

    /// Query whether the IPv6 address is an unicast address.
    pub fn x_is_unicast(&self) -> (r: bool)
        ensures
            r == self.spec_is_unicast(),
    {
        !(self.is_multicast() || self.is_unspecified())
    }

    /// Query whether the IPv6 address is a global unicast address.
    pub fn is_global_unicast(&self) -> (r: bool)
        ensures
            r == self.spec_is_global_unicast(),
    {
        self.bits / 0x2000_0000_0000_0000_0000_0000_0000_0000 == 1
    }

    /// Query whether the IPv6 address is in the link-local scope.
    pub fn is_link_local(&self) -> (r: bool)
        ensures
            r == self.spec_is_link_local(),
    {
        self.bits / 0x1_0000_0000_0000_0000 == 0xfe80_0000_0000_0000
    }

    /// Helper function used to mask an address given a prefix length, which is at most 128:
    /// the octets of the address with the bits after the prefix cleared.
    pub fn mask(&self, mask: u8) -> (octets: [u8; 16])
        requires
            mask <= 128,
        ensures
            octets@ == octets128(first_of_block(128, mask as nat, self.bits as int)),
    {
        proof {
            lemma_pow2_128();
            law_block_bounds(128, mask as nat, self.bits as int, 0);
        }
        if mask == 0 {
            proof {
                vstd::arithmetic::div_mod::lemma_small_mod(
                    self.bits as nat,
                    vstd::arithmetic::power2::pow2(128),
                );
            }
            return Address { bits: 0 }.octets();
        }
        let first = Address { bits: self.bits - self.bits % block_size_128(mask) };
        first.octets()
    }

    /// The solicited node for the given unicast address.
    pub fn solicited_node(&self) -> (address: Address)
        requires
            self.spec_is_unicast(),
        ensures
            address == self.spec_solicited_node(),
    {
        Address { bits: 0xff02_0000_0000_0000_0000_0001_ff00_0000 + self.bits % 0x100_0000 }
    }

    /// The Ethernet address this multicast address maps to (RFC 2464 §7).
    ///
    /// The mapping keeps only the low 32 bits of the group, so distinct groups can map to the
    /// same Ethernet address.
    pub fn multicast_ethernet_addr(&self) -> (address: ethernet::Address)
        requires
            self.spec_is_multicast(),
        ensures
            address@ == seq![0x33u8, 0x33] + address_octets(self.bits).subrange(12, 16),
    {
        let b = self.octets();
        let address = ethernet::Address([0x33, 0x33, b[12], b[13], b[14], b[15]]);
        proof {
            lemma_be128_octets128(self.bits as int);
        }
        assert(address@ =~= seq![0x33u8, 0x33] + address_octets(self.bits).subrange(12, 16));
        address
    }

    /// The scope of the address.
    pub open spec fn spec_scope(self) -> MulticastScope {
        if self.spec_is_multicast() {
            scope_of((self.bits / 0x1_0000_0000_0000_0000_0000_0000_0000 % 16) as int)
        } else if self.spec_is_link_local() {
            MulticastScope::LinkLocal
        } else if self.spec_is_unique_local() || self.spec_is_global_unicast() {
            MulticastScope::Global
        } else {
            MulticastScope::Unknown
        }
    }

    /// Return the scope of the address. Unique local addresses are considered to be of global
    /// scope, see RFC 6724 § 3.1.
    pub fn x_multicast_scope(&self) -> (scope: MulticastScope)
        ensures
            scope == self.spec_scope(),
    {
        if self.is_multicast() {
            return MulticastScope::from(
                (self.bits / 0x1_0000_0000_0000_0000_0000_0000_0000 % 16) as u8,
            );
        }
        if self.is_link_local() {
            MulticastScope::LinkLocal
        } else if self.is_unique_local() || self.is_global_unicast() {
            MulticastScope::Global
        } else {
            MulticastScope::Unknown
        }
    }

    /// Query whether the IPv6 address is a solicited-node multicast address.
    pub fn is_solicited_node_multicast(&self) -> (r: bool)
        ensures
            r == self.spec_is_solicited_node_multicast(),
    {
        self.bits / 0x100_0000 == 0xff02_0000_0000_0000_0000_0001_ff
    }

    /// If `self` is a CIDR-compatible subnet mask, return `Some(prefix_len)`, where
    /// `prefix_len` is the number of leading ones. Return `None` otherwise.
    pub fn prefix_len(&self) -> (prefix_len: Option<u8>)
        ensures
            prefix_len matches Some(n) ==> n <= 128 && self.bits == prefix_mask(128, n as nat),
            prefix_len is None ==> forall|n: nat|
                n <= 128 ==> self.bits != #[trigger] prefix_mask(128, n),
    {
        proof {
            lemma_pow2_128();
        }
        if self.bits == 0 {
            return Some(0);
        }
        let most: u128 = 0xffff_ffff_ffff_ffff_ffff_ffff_ffff_ffff;
        let mut n: u8 = 1;
        while n <= 128
            invariant
                1 <= n <= 129,
                most == 0xffff_ffff_ffff_ffff_ffff_ffff_ffff_ffff,
                self.bits != 0,
                forall|m: nat| m < n ==> self.bits != #[trigger] prefix_mask(128, m),
            decreases 129 - n,
        {
            proof {
                lemma_pow2_128();
            }
            if self.bits == most - (block_size_128(n) - 1) {
                return Some(n);
            }
            n = n + 1;
        }
        None
    }
}

/// The link-local all nodes multicast address, `ff02::1`.
pub fn link_local_all_nodes() -> (address: Address)
    ensures
        address.bits == 0xff02_0000_0000_0000_0000_0000_0000_0001,
{
    Address { bits: 0xff02_0000_0000_0000_0000_0000_0000_0001 }
}

/// The link-local all routers multicast address, `ff02::2`.
pub fn link_local_all_routers() -> (address: Address)
    ensures
        address.bits == 0xff02_0000_0000_0000_0000_0000_0000_0002,
{
    Address { bits: 0xff02_0000_0000_0000_0000_0000_0000_0002 }
}

/// The link-local all MLDv2-capable routers multicast address, `ff02::16`.
pub fn link_local_all_mldv2_routers() -> (address: Address)
    ensures
        address.bits == 0xff02_0000_0000_0000_0000_0000_0000_0016,
{
    Address { bits: 0xff02_0000_0000_0000_0000_0000_0000_0016 }
}

/// The solicited-node address of a unicast address is a solicited-node multicast address, a
/// multicast group, and the same for all addresses with the same last 24 bits.
pub proof fn law_solicited_node(a: Address, b: Address)
    ensures
        a.spec_solicited_node().spec_is_solicited_node_multicast(),
        a.spec_solicited_node().spec_is_multicast(),
        a.spec_solicited_node() == b.spec_solicited_node() <==> a.bits % 0x100_0000 == b.bits
            % 0x100_0000,
{
}

/// A specification of an IPv6 CIDR block, containing an address and a variable-length
/// subnet masking prefix length.
#[derive(Debug, Hash, PartialEq, Eq, Structural, PartialOrd, Ord, Clone, Copy)]
pub struct Cidr {
    address: Address,
    prefix_len: u8,
}

impl Cidr {
    #[verifier::type_invariant]
    spec fn inv(self) -> bool {
        self.prefix_len <= 128
    }

    /// The address of the block.
    pub closed spec fn spec_address(self) -> Address {
        self.address
    }

    /// The prefix length of the block.
    pub closed spec fn spec_prefix_len(self) -> nat {
        self.prefix_len as nat
    }

    /// Whether the block has the given address and prefix length.
    pub open spec fn is(self, address: Address, prefix_len: nat) -> bool {
        self.spec_address() == address && self.spec_prefix_len() == prefix_len
    }

    /// Whether the block holds `addr`.
    pub open spec fn spec_contains(self, addr: Address) -> bool {
        same_prefix(128, self.spec_prefix_len(), self.spec_address().bits as int, addr.bits as int)
    }

    /// Whether the block holds the block `subnet`.
    pub open spec fn spec_contains_subnet(self, subnet: Cidr) -> bool {
        self.spec_prefix_len() <= subnet.spec_prefix_len() && self.spec_contains(
            subnet.spec_address(),
        )
    }

    /// The solicited node prefix, `ff02::1:ff00:0/104`.
    pub fn solicited_node_prefix() -> (cidr: Cidr)
        ensures
            cidr.is(
                (Address { bits: 0xff02_0000_0000_0000_0000_0001_ff00_0000 }),
                104,
            ),
    {
        Cidr { address: Address { bits: 0xff02_0000_0000_0000_0000_0001_ff00_0000 }, prefix_len: 104 }
    }

    /// The link-local address prefix, `fe80::/10`.
    pub fn link_local_prefix() -> (cidr: Cidr)
        ensures
            cidr.is((Address { bits: 0xfe80_0000_0000_0000_0000_0000_0000_0000 }), 10),
    {
        Cidr { address: Address { bits: 0xfe80_0000_0000_0000_0000_0000_0000_0000 }, prefix_len: 10 }
    }

    /// Create an IPv6 CIDR block from the given address and prefix length.
    ///
    /// Return `None` if the prefix length is larger than 128.
    pub fn try_new(address: Address, prefix_len: u8) -> (cidr: Option<Cidr>)
        ensures
            cidr is Some <==> prefix_len <= 128,
            cidr matches Some(c) ==> c.is(address, prefix_len as nat),
    {
        if prefix_len <= 128 {
            Some(Cidr { address, prefix_len })
        } else {
            None
        }
    }

    /// Create a CIDR block from what the text before and behind the separator parses as, `None`
    /// where it does not parse.
    pub fn from_parts(
        address: Option<Address>,
        prefix_len: Option<u8>,
    ) -> (cidr: core::result::Result<Cidr, ParseError>)
        ensures
            match (address, prefix_len) {
                (None, _) => cidr == Err::<Cidr, ParseError>(ParseError::Addr),
                (Some(_), None) => cidr == Err::<Cidr, ParseError>(ParseError::PrefixLen),
                (Some(a), Some(p)) => if p <= 128 {
                    cidr matches Ok(c) && c.is(a, p as nat)
                } else {
                    cidr == Err::<Cidr, ParseError>(ParseError::PrefixLenTooLarge)
                },
            },
    {
        let address = match address {
            Some(address) => address,
            None => return Err(ParseError::Addr),
        };
        let prefix_len: u8 = match prefix_len {
            Some(prefix_len) => prefix_len,
            None => return Err(ParseError::PrefixLen),
        };
        match Cidr::try_new(address, prefix_len) {
            Some(cidr) => Ok(cidr),
            None => Err(ParseError::PrefixLenTooLarge),
        }
    }

    /// Create an IPv6 CIDR block from the given address and prefix length, which is at most
    /// 128.
    pub fn new(address: Address, prefix_len: u8) -> (cidr: Cidr)
        requires
            prefix_len <= 128,
        ensures
            cidr.is(address, prefix_len as nat),
    {
        Cidr { address, prefix_len }
    }

    /// Return the address of this IPv6 CIDR block.
    pub fn address(&self) -> (address: Address)
        ensures
            address == self.spec_address(),
    {
        self.address
    }

    /// Return the prefix length of this IPv6 CIDR block.
    pub fn prefix_len(&self) -> (prefix_len: u8)
        ensures
            prefix_len == self.spec_prefix_len(),
            prefix_len <= 128,
    {
        proof {
            use_type_invariant(self);
        }
        self.prefix_len
    }

    /// Query whether the subnetwork described by this IPv6 CIDR block contains the given
    /// address.
    pub fn contains_addr(&self, addr: &Address) -> (r: bool)
        ensures
            r == self.spec_contains(*addr),
    {
        proof {
            use_type_invariant(self);
            lemma_pow2_128();
        }
        if self.prefix_len == 0 {
            proof {
                let all = vstd::arithmetic::power2::pow2(128) as int;
                vstd::arithmetic::div_mod::lemma_basic_div(self.address.bits as int, all);
                vstd::arithmetic::div_mod::lemma_basic_div(addr.bits as int, all);
            }
            return true;
        }
        let size: u128 = block_size_128(self.prefix_len);
        self.address.bits / size == addr.bits / size
    }

    /// Query whether the subnetwork described by this IPv6 CIDR block contains the
    /// subnetwork described by the given IPv6 CIDR block.
    pub fn contains_subnet(&self, subnet: &Cidr) -> (r: bool)
        ensures
            r == self.spec_contains_subnet(*subnet),
    {
        self.prefix_len <= subnet.prefix_len && self.contains_addr(&subnet.address)
    }
}

/// A block contains its own address, and itself.
pub proof fn law_contains_itself(cidr: Cidr)
    ensures
        cidr.spec_contains(cidr.spec_address()),
        cidr.spec_contains_subnet(cidr),
{
}

/// What a subnet contains, the block that contains the subnet contains too.
pub proof fn law_contains_subnet(cidr: Cidr, subnet: Cidr, addr: Address)
    requires
        subnet.spec_prefix_len() <= 128,
        cidr.spec_contains_subnet(subnet),
        subnet.spec_contains(addr),
    ensures
        cidr.spec_contains(addr),
{
    law_longer_prefix(
        128,
        cidr.spec_prefix_len(),
        subnet.spec_prefix_len(),
        subnet.spec_address().bits as int,
        addr.bits as int,
    );
}

/// A block contains a subnet exactly if it contains every address of the subnet.
pub proof fn law_subnet_addresses(cidr: Cidr, subnet: Cidr)
    requires
        cidr.spec_prefix_len() <= 128,
        subnet.spec_prefix_len() <= 128,
    ensures
        cidr.spec_contains_subnet(subnet) <==> forall|addr: Address| #[trigger]
            subnet.spec_contains(addr) ==> cidr.spec_contains(addr),
{
    let a = cidr.spec_address().bits as int;
    let b = subnet.spec_address().bits as int;
    if cidr.spec_contains_subnet(subnet) {
        assert forall|addr: Address| #[trigger] subnet.spec_contains(
            addr,
        ) implies cidr.spec_contains(addr) by {
            law_contains_subnet(cidr, subnet, addr);
        }
    }
    if forall|addr: Address| #[trigger]
        subnet.spec_contains(addr) ==> cidr.spec_contains(addr) {
        lemma_pow2_128();
        law_block_bounds(128, subnet.spec_prefix_len(), b, b);
        let first = Address { bits: first_of_block(128, subnet.spec_prefix_len(), b) as u128 };
        let last = Address { bits: last_of_block(128, subnet.spec_prefix_len(), b) as u128 };
        assert(subnet.spec_contains(first));
        assert(subnet.spec_contains(last));
        law_block_within(128, cidr.spec_prefix_len(), subnet.spec_prefix_len(), a, b);
    }
}

/// A subnet of a subnet is a subnet.
pub proof fn law_subnet_transitive(a: Cidr, b: Cidr, c: Cidr)
    requires
        b.spec_prefix_len() <= 128,
        a.spec_contains_subnet(b),
        b.spec_contains_subnet(c),
    ensures
        a.spec_contains_subnet(c),
{
    law_contains_subnet(a, b, c.spec_address());
}

/// A block contains an address exactly if masking both gives the same octets.
pub proof fn law_contains_mask(cidr: Cidr, addr: Address)
    requires
        cidr.spec_prefix_len() <= 128,
    ensures
        cidr.spec_contains(addr) <==> octets128(
            first_of_block(128, cidr.spec_prefix_len(), cidr.spec_address().bits as int),
        ) == octets128(first_of_block(128, cidr.spec_prefix_len(), addr.bits as int)),
{
    lemma_pow2_128();
    let p = cidr.spec_prefix_len();
    let a = cidr.spec_address().bits as int;
    let b = addr.bits as int;
    law_block_bounds(128, p, a, b);
    law_block_bounds(128, p, b, a);
    law_block_bounds(128, p, a, first_of_block(128, p, b));
    lemma_be128_octets128(first_of_block(128, p, a));
    lemma_be128_octets128(first_of_block(128, p, b));
    if cidr.spec_contains(addr) {
        let n = super::prefix::block_size(128, p) as int;
        lemma_block_size(128, p);
        vstd::arithmetic::div_mod::lemma_fundamental_div_mod(a, n);
        vstd::arithmetic::div_mod::lemma_fundamental_div_mod(b, n);
    }
}

/// The fields of an IPv6 header.
pub struct Header {
    /// The version.
    pub version: int,
    /// The traffic class.
    pub traffic_class: int,
    /// The flow label.
    pub flow_label: int,
    /// The length of the payload.
    pub payload_len: int,
    /// The kind of header that follows.
    pub next_header: Protocol,
    /// The hop limit.
    pub hop_limit: u8,
    /// The source address.
    pub src_addr: Address,
    /// The destination address.
    pub dst_addr: Address,
}

/// The fields of the header that `s` starts with.
pub open spec fn header(s: Seq<u8>) -> Header {
    Header {
        version: s[0] as int / 16,
        traffic_class: s[0] as int % 16 * 16 + s[1] as int / 16,
        flow_label: be24(s, 1) % 0x10_0000,
        payload_len: be16(s, 4),
        next_header: Protocol(s[6]),
        hop_limit: s[7],
        src_addr: Address { bits: be128(s, 8) as u128 },
        dst_addr: Address { bits: be128(s, 24) as u128 },
    }
}

/// Whether `s` starts with an IPv6 packet: it holds the header and the whole of the payload.
pub open spec fn well_formed(s: Seq<u8>) -> bool {
    &&& s.len() >= HEADER_LEN
    &&& HEADER_LEN + header(s).payload_len <= s.len()
}

/// The payload of the packet that `s` starts with.
pub open spec fn payload(s: Seq<u8>) -> Seq<u8> {
    s.subrange(HEADER_LEN as int, HEADER_LEN + header(s).payload_len)
}

/// `s` with the low four bits of `v` stored as the version.
pub open spec fn with_version(s: Seq<u8>, v: u8) -> Seq<u8> {
    s.update(0, (v % 16 * 16 + s[0] % 16) as u8)
}

/// `s` with `v` stored as the traffic class.
pub open spec fn with_traffic_class(s: Seq<u8>, v: u8) -> Seq<u8> {
    s.update(0, (s[0] / 16 * 16 + v / 16) as u8).update(1, (v % 16 * 16 + s[1] % 16) as u8)
}

/// `s` with the low twenty bits of `v` stored as the flow label.
pub open spec fn with_flow_label(s: Seq<u8>, v: u32) -> Seq<u8> {
    put24(s, 1, s[1] / 16 * 0x10_0000 + v % 0x10_0000)
}

/// A read/write wrapper around an Internet Protocol version 6 packet buffer.
#[derive(Debug, PartialEq, Eq)]
pub struct Packet<'a> {
    /// The octets of the packet.
    pub buffer: &'a mut [u8],
}

impl<'a> View for Packet<'a> {
    type V = Seq<u8>;

    open spec fn view(&self) -> Seq<u8> {
        self.buffer@
    }
}

impl<'a> Packet<'a> {
    /// Imbue a raw octet buffer with packet structure.
    pub fn new_unchecked(buffer: &'a mut [u8]) -> (packet: Packet<'a>)
        ensures
            packet@ == old(buffer)@,
            final(packet.buffer)@ == final(buffer)@,
    {
        Packet { buffer }
    }

    /// Shorthand for a combination of [`new_unchecked`](Packet::new_unchecked) and
    /// [`check_len`](Packet::check_len).
    pub fn new_checked(buffer: &'a mut [u8]) -> (packet: Result<Packet<'a>>)
        ensures
            packet is Ok <==> well_formed(old(buffer)@),
            packet matches Ok(p) ==> p@ == old(buffer)@ && final(p.buffer)@ == final(buffer)@,
            packet is Err ==> final(buffer)@ == old(buffer)@,
    {
        let packet = Self::new_unchecked(buffer);
        match packet.check_len() {
            Ok(()) => Ok(packet),
            Err(error) => Err(error),
        }
    }

    /// Ensure that no accessor method will panic if called.
    ///
    /// Returns an error if the buffer is too short.
    ///
    /// The result of this check is invalidated by calling
    /// [`set_payload_len`](Packet::set_payload_len).
    pub fn check_len(&self) -> (result: Result<()>)
        ensures
            result is Ok <==> well_formed(self@),
    {
        let len: usize = self.buffer.len();
        if len < HEADER_LEN || len < self.total_len() {
            Err(Error)
        } else {
            Ok(())
        }
    }

    /// Return the header length.
    pub fn header_len(&self) -> (value: usize)
        ensures
            value == HEADER_LEN,
    {
        HEADER_LEN
    }

    /// Return the version field.
    pub fn version(&self) -> (value: u8)
        requires
            self@.len() >= 1,
        ensures
            value == header(self@).version,
    {
        self.buffer[0] / 16
    }

    /// Return the traffic class.
    pub fn traffic_class(&self) -> (value: u8)
        requires
            self@.len() >= 2,
        ensures
            value == header(self@).traffic_class,
    {
        (self.buffer[0] % 16) * 16 + self.buffer[1] / 16
    }

    /// Return the flow label field.
    pub fn flow_label(&self) -> (value: u32)
        requires
            self@.len() >= 4,
        ensures
            value == header(self@).flow_label,
    {
        read_u24(self.buffer, 1) % 0x10_0000
    }

    /// Return the payload length field.
    pub fn payload_len(&self) -> (value: u16)
        requires
            self@.len() >= 6,
        ensures
            value == header(self@).payload_len,
    {
        read_u16(self.buffer, 4)
    }

    /// Return the payload length added to the known header length.
    pub fn total_len(&self) -> (value: usize)
        requires
            self@.len() >= 6,
        ensures
            value == HEADER_LEN + header(self@).payload_len,
    {
        self.header_len() + self.payload_len() as usize
    }

    /// Return the next header field.
    pub fn next_header(&self) -> (value: Protocol)
        requires
            self@.len() >= 7,
        ensures
            value == header(self@).next_header,
    {
        Protocol::from(self.buffer[6])
    }

    /// Return the hop limit field.
    pub fn hop_limit(&self) -> (value: u8)
        requires
            self@.len() >= 8,
        ensures
            value == header(self@).hop_limit,
    {
        self.buffer[7]
    }

    /// Return the source address field.
    pub fn src_addr(&self) -> (value: Address)
        requires
            self@.len() >= 24,
        ensures
            value == header(self@).src_addr,
    {
        Address { bits: read_u128(self.buffer, 8) }
    }

    /// Return the destination address field.
    pub fn dst_addr(&self) -> (value: Address)
        requires
            self@.len() >= 40,
        ensures
            value == header(self@).dst_addr,
    {
        Address { bits: read_u128(self.buffer, 24) }
    }

    /// Return a pointer to the payload.
    pub fn payload(&self) -> (value: &[u8])
        requires
            well_formed(self@),
        ensures
            value@ == payload(self@),
    {
        let start: usize = self.header_len();
        let end: usize = self.total_len();
        &self.buffer[start..end]
    }

    /// Set the version field.
    pub fn set_version(&mut self, value: u8)
        requires
            old(self)@.len() >= 1,
        ensures
            final(self)@ == with_version(old(self)@, value),
            final(final(self).buffer)@ == final(old(self).buffer)@,
    {
        self.buffer[0] = (value % 16) * 16 + self.buffer[0] % 16;
    }

    /// Set the traffic class field.
    pub fn set_traffic_class(&mut self, value: u8)
        requires
            old(self)@.len() >= 2,
        ensures
            final(self)@ == with_traffic_class(old(self)@, value),
            final(final(self).buffer)@ == final(old(self).buffer)@,
    {
        self.buffer[0] = self.buffer[0] / 16 * 16 + value / 16;
        self.buffer[1] = (value % 16) * 16 + self.buffer[1] % 16;
    }

    /// Set the flow label field.
    pub fn set_flow_label(&mut self, value: u32)
        requires
            old(self)@.len() >= 4,
        ensures
            final(self)@ == with_flow_label(old(self)@, value),
            final(final(self).buffer)@ == final(old(self).buffer)@,
    {
        // Retain the lower order 4 bits of the traffic class.
        let raw: u32 = (self.buffer[1] / 16) as u32 * 0x10_0000 + value % 0x10_0000;
        write_u24(self.buffer, 1, raw);
    }

    /// Set the payload length field.
    pub fn set_payload_len(&mut self, value: u16)
        requires
            old(self)@.len() >= 6,
        ensures
            final(self)@ == put16(old(self)@, 4, value as int),
            final(final(self).buffer)@ == final(old(self).buffer)@,
    {
        write_u16(self.buffer, 4, value);
    }

    /// Set the next header field.
    pub fn set_next_header(&mut self, value: Protocol)
        requires
            old(self)@.len() >= 7,
        ensures
            final(self)@ == old(self)@.update(6, value.0),
            final(final(self).buffer)@ == final(old(self).buffer)@,
    {
        self.buffer[6] = value.0;
    }

    /// Set the hop limit field.
    pub fn set_hop_limit(&mut self, value: u8)
        requires
            old(self)@.len() >= 8,
        ensures
            final(self)@ == old(self)@.update(7, value),
            final(final(self).buffer)@ == final(old(self).buffer)@,
    {
        self.buffer[7] = value;
    }

    /// Set the source address field.
    pub fn set_src_addr(&mut self, value: Address)
        requires
            old(self)@.len() >= 24,
        ensures
            final(self)@ == splice(old(self)@, 8, address_octets(value.bits)),
            final(final(self).buffer)@ == final(old(self).buffer)@,
    {
        proof {
            lemma_be128_octets128(value.bits as int);
        }
        copy_into(self.buffer, 8, &value.octets());
    }

    /// Set the destination address field.
    pub fn set_dst_addr(&mut self, value: Address)
        requires
            old(self)@.len() >= 40,
        ensures
            final(self)@ == splice(old(self)@, 24, address_octets(value.bits)),
            final(final(self).buffer)@ == final(old(self).buffer)@,
    {
        proof {
            lemma_be128_octets128(value.bits as int);
        }
        copy_into(self.buffer, 24, &value.octets());
    }

    /// Return a mutable pointer to the payload.
    pub fn payload_mut(&mut self) -> (value: &mut [u8])
        requires
            well_formed(old(self)@),
        ensures
            value@ == payload(old(self)@),
            final(self)@ == old(self)@.take(HEADER_LEN as int) + final(value)@ + old(self)@.skip(
                HEADER_LEN + header(old(self)@).payload_len,
            ),
            final(final(self).buffer)@ == final(old(self).buffer)@,
    {
        let start: usize = self.header_len();
        let end: usize = self.total_len();
        sub_slice_mut(self.buffer, start, end)
    }
}

/// Every setter changes its own field and no other: the version and the traffic class.
pub proof fn law_set_traffic_class(s: Seq<u8>, version: u8, traffic_class: u8)
    requires
        s.len() >= HEADER_LEN,
    ensures
        header(with_version(s, version)) == (Header { version: version as int % 16, ..header(s) }),
        header(with_traffic_class(s, traffic_class)) == (Header {
            traffic_class: traffic_class as int,
            ..header(s)
        }),
{
    let u = with_traffic_class(s, traffic_class);
    assert(u[0] / 16 == s[0] / 16 && u[0] % 16 == traffic_class / 16);
    assert(u[1] / 16 == traffic_class % 16 && u[1] % 16 == s[1] % 16);
    lemma_low20(u[1], u[2], u[3]);
    lemma_low20(s[1], s[2], s[3]);
    lemma_be128_frame(s, u, 8);
    lemma_be128_frame(s, u, 24);
    let t = with_version(s, version);
    lemma_be128_frame(s, t, 8);
    lemma_be128_frame(s, t, 24);
}

/// Every setter changes its own field and no other: the flow label.
pub proof fn law_set_flow_label(s: Seq<u8>, flow_label: u32)
    requires
        s.len() >= HEADER_LEN,
    ensures
        header(with_flow_label(s, flow_label)) == (Header {
            flow_label: flow_label as int % 0x10_0000,
            ..header(s)
        }),
{
    let high = s[1] as int / 16;
    let low = flow_label as int % 0x10_0000;
    let raw = high * 0x10_0000 + low;
    let t = with_flow_label(s, flow_label);
    law_put24(s, 1, raw);
    lemma_fundamental_div_mod_converse(raw, 0x10_0000, high, low);
    lemma_fundamental_div_mod(low, 0x1_0000);
    lemma_fundamental_div_mod_converse(
        raw,
        0x1_0000,
        high * 16 + low / 0x1_0000,
        low % 0x1_0000,
    );
    assert(t[1] as int == high * 16 + low / 0x1_0000);
    assert(t[1] as int / 16 == high);
    lemma_be128_frame(s, t, 8);
    lemma_be128_frame(s, t, 24);
}

/// The low twenty bits of a number of three octets.
proof fn lemma_low20(a: u8, b: u8, c: u8)
    ensures
        (a * 0x1_0000 + b * 0x100 + c) % 0x10_0000 == (a % 16) * 0x1_0000 + b * 0x100 + c,
{
}

/// The number that a sixteen-octet field holds depends on its own octets only.
proof fn lemma_be128_frame(s: Seq<u8>, t: Seq<u8>, at: int)
    requires
        forall|i: int| at <= i < at + 16 ==> s[i] == t[i],
    ensures
        be128(s, at) == be128(t, at),
{
}

/// Every setter changes its own field and no other: the fields of whole octets.
pub proof fn law_set_octets(
    s: Seq<u8>,
    payload_len: u16,
    next_header: Protocol,
    hop_limit: u8,
    src_addr: Address,
    dst_addr: Address,
)
    requires
        s.len() >= HEADER_LEN,
    ensures
        header(put16(s, 4, payload_len as int)) == (Header {
            payload_len: payload_len as int,
            ..header(s)
        }),
        header(s.update(6, next_header.0)) == (Header { next_header, ..header(s) }),
        header(s.update(7, hop_limit)) == (Header { hop_limit, ..header(s) }),
        header(splice(s, 8, address_octets(src_addr.bits))) == (Header { src_addr, ..header(s) }),
        header(splice(s, 24, address_octets(dst_addr.bits))) == (Header { dst_addr, ..header(s) }),
{
    lemma_be128_octets128(src_addr.bits as int);
    lemma_be128_octets128(dst_addr.bits as int);
    let a = splice(s, 8, address_octets(src_addr.bits));
    let b = splice(s, 24, address_octets(dst_addr.bits));
    lemma_be128_shift(a, 8, address_octets(src_addr.bits));
    lemma_be128_shift(b, 24, address_octets(dst_addr.bits));
    lemma_be128_frame(s, a, 24);
    lemma_be128_frame(s, b, 8);
}

/// The number that a sixteen-octet field holds is that of the same octets elsewhere.
pub(crate) proof fn lemma_be128_shift(s: Seq<u8>, at: int, t: Seq<u8>)
    requires
        forall|i: int| 0 <= i < 16 ==> #[trigger] t[i] == s[at + i],
    ensures
        be128(s, at) == be128(t, 0),
{
    assert(t[0] == s[at] && t[1] == s[at + 1] && t[2] == s[at + 2] && t[3] == s[at + 3]);
    assert(t[4] == s[at + 4] && t[5] == s[at + 5] && t[6] == s[at + 6] && t[7] == s[at + 7]);
    assert(t[8] == s[at + 8] && t[9] == s[at + 9] && t[10] == s[at + 10] && t[11] == s[at + 11]);
    assert(t[12] == s[at + 12] && t[13] == s[at + 13] && t[14] == s[at + 14] && t[15] == s[at + 15]);
}

/// Which addresses are of which kind, said of the bounds of the kind.
pub proof fn law_address_class(address: Address)
    ensures
        address.spec_is_multicast() <==> address.bits >= 0xff00_0000_0000_0000_0000_0000_0000_0000,
        address.spec_is_unicast() <==> 0 < address.bits
            < 0xff00_0000_0000_0000_0000_0000_0000_0000,
        address.spec_is_link_local() <==> 0xfe80_0000_0000_0000_0000_0000_0000_0000 <= address.bits
            <= 0xfe80_0000_0000_0000_ffff_ffff_ffff_ffff,
        address.spec_is_unique_local() <==> 0xfc00_0000_0000_0000_0000_0000_0000_0000
            <= address.bits <= 0xfdff_ffff_ffff_ffff_ffff_ffff_ffff_ffff,
        address.spec_is_global_unicast() <==> 0x2000_0000_0000_0000_0000_0000_0000_0000
            <= address.bits <= 0x3fff_ffff_ffff_ffff_ffff_ffff_ffff_ffff,
        address.spec_is_solicited_node_multicast() <==> 0xff02_0000_0000_0000_0000_0001_ff00_0000
            <= address.bits <= 0xff02_0000_0000_0000_0000_0001_ffff_ffff,
{
}

/// The scope of an address: that of a multicast group is the low half of its second octet, that of
/// a link-local address is the link, and unique local and global unicast addresses are global.
pub proof fn law_scope(address: Address)
    ensures
        address.bits >= 0xff00_0000_0000_0000_0000_0000_0000_0000 ==> {
            let scope = address.bits / 0x1_0000_0000_0000_0000_0000_0000_0000 % 16;
            &&& address.spec_scope() is InterfaceLocal <==> scope == 1
            &&& address.spec_scope() is LinkLocal <==> scope == 2
            &&& address.spec_scope() is AdminLocal <==> scope == 4
            &&& address.spec_scope() is SiteLocal <==> scope == 5
            &&& address.spec_scope() is OrganizationLocal <==> scope == 8
            &&& address.spec_scope() is Global <==> scope == 14
        },
        0xfe80_0000_0000_0000_0000_0000_0000_0000 <= address.bits
            <= 0xfe80_0000_0000_0000_ffff_ffff_ffff_ffff ==> address.spec_scope() is LinkLocal,
        0xfc00_0000_0000_0000_0000_0000_0000_0000 <= address.bits
            <= 0xfdff_ffff_ffff_ffff_ffff_ffff_ffff_ffff ==> address.spec_scope() is Global,
        0x2000_0000_0000_0000_0000_0000_0000_0000 <= address.bits
            <= 0x3fff_ffff_ffff_ffff_ffff_ffff_ffff_ffff ==> address.spec_scope() is Global,
        address.bits < 0x2000_0000_0000_0000_0000_0000_0000_0000 ==> address.spec_scope()
            is Unknown,
        0x4000_0000_0000_0000_0000_0000_0000_0000 <= address.bits
            < 0xfc00_0000_0000_0000_0000_0000_0000_0000 ==> address.spec_scope() is Unknown,
        0xfe80_0000_0000_0001_0000_0000_0000_0000 <= address.bits
            < 0xff00_0000_0000_0000_0000_0000_0000_0000 ==> address.spec_scope() is Unknown,
        0xfe00_0000_0000_0000_0000_0000_0000_0000 <= address.bits
            < 0xfe80_0000_0000_0000_0000_0000_0000_0000 ==> address.spec_scope() is Unknown,
{
}

/// Where the fields of the header are, octet by octet.
pub proof fn law_header(s: Seq<u8>)
    ensures
        ({
            let h = header(s);
            &&& h.version == s[0] / 16
            &&& h.traffic_class == 16 * (s[0] % 16) + s[1] / 16
            &&& h.flow_label == 0x1_0000 * (s[1] % 16) + 0x100 * s[2] + s[3]
            &&& h.payload_len == 256 * s[4] + s[5]
            &&& h.next_header.0 == s[6]
            &&& h.hop_limit == s[7]
            &&& h.src_addr.bits == be128(s, 8)
            &&& h.dst_addr.bits == be128(s, 24)
        }),
        well_formed(s) <==> s.len() >= 40 && 40 + 256 * s[4] + s[5] <= s.len(),
        well_formed(s) ==> payload(s) == s.subrange(40, 40 + 256 * s[4] + s[5]),
{
    assert(be24(s, 1) == 0x10_0000 * (s[1] / 16) + (0x1_0000 * (s[1] % 16) + 0x100 * s[2] + s[3]));
}

} // verus!

//! Internet Protocol version 4.

use vstd::prelude::*;

use super::prefix::{
    block_size_32, first_of_block, last_of_block, law_block_bounds, law_block_within,
    law_longer_prefix,
    law_prefix_mask_injective, lemma_block_size, lemma_pow2_32, prefix_mask, same_prefix,
};
use super::{Error, ParseError, Result};
use super::bits::{has_bit, law_with_bit, lemma_bit_u16, with_bit};
use super::checksum::{self, fold, law_complement, law_word_sum_put16, word_sum};
use super::ethernet;
use super::ip::Protocol;
use crate::endian::{be16, be32, octets32, put16, put32};
use crate::endian::{law_put16, law_put32, lemma_be32_octets32, lemma_octets32};
use crate::endian::{read_u16, read_u32, sub_slice_mut, write_u16, write_u32};

verus! {

/// The smallest datagram that every host must be able to receive, see RFC 791 § 3.1.
pub const MIN_MTU: usize = 576;

/// The payload of every fragment but the last is a multiple of this, in octets.
/// Fragment offsets are counted in units of it, see RFC 791 § 3.1.
pub const FRAGMENT_PAYLOAD_ALIGNMENT: usize = 8;

/// The length of an IPv4 header without options.
pub const HEADER_LEN: usize = 20;

/// An IPv4 address.
#[derive(Debug, Clone, Copy, PartialEq, Eq, Structural, Hash, PartialOrd, Ord)]
pub struct Address {
    /// The address as a number: its first octet is the most significant one.
    pub bits: u32,
}

/// The octets of an IPv4 address, the most significant one first.
pub open spec fn address_octets(bits: u32) -> Seq<u8> {
    octets32(bits as int)
}

/// The IPv4 address with the given octets.
pub open spec fn address_of(octets: Seq<u8>) -> Address {
    Address { bits: be32(octets, 0) as u32 }
}

/// Splitting an address into octets and putting it together again, in either order, gives
/// back what was started from.
pub proof fn law_address_octets(address: Address, octets: Seq<u8>)
    requires
        octets.len() == 4,
    ensures
        address_of(address_octets(address.bits)) == address,
        address_octets(address_of(octets).bits) == octets,
{
    lemma_be32_octets32(address.bits as int);
    lemma_octets32(octets, 0);
    assert(octets.subrange(0, 4) =~= octets);
}

impl Address {
    /// Whether the address is a multicast group.
    pub open spec fn spec_is_multicast(self) -> bool {
        self.bits / 0x1000_0000 == 0xe
    }

    /// Whether the address is neither the broadcast address, nor a multicast group, nor the
    /// unspecified address.
    pub open spec fn spec_is_unicast(self) -> bool {
        !(self.bits == 0xffff_ffff || self.spec_is_multicast() || self.bits == 0)
    }

    /// Construct an address from its octets.
    pub fn new(a: u8, b: u8, c: u8, d: u8) -> (address: Address)
        ensures
            address == address_of(seq![a, b, c, d]),
    {
        Address {
            bits: a as u32 * 0x100_0000 + b as u32 * 0x1_0000 + c as u32 * 0x100 + d as u32,
        }
    }

    /// Construct an address from its octets.
    pub fn from_octets(octets: [u8; 4]) -> (address: Address)
        ensures
            address == address_of(octets@),
    {
        Address::new(octets[0], octets[1], octets[2], octets[3])
    }

    /// Construct an address from a number.
    pub fn from_bits(bits: u32) -> (address: Address)
        ensures
            address.bits == bits,
    {
        Address { bits }
    }

    /// The address as a number.
    pub fn to_bits(self) -> (bits: u32)
        ensures
            bits == self.bits,
    {
        self.bits
    }

    /// The octets of the address.
    pub fn octets(&self) -> (octets: [u8; 4])
        ensures
            octets@ == address_octets(self.bits),
    {
        let octets: [u8; 4] = [
            (self.bits / 0x100_0000) as u8,
            (self.bits / 0x1_0000 % 0x100) as u8,
            (self.bits / 0x100 % 0x100) as u8,
            (self.bits % 0x100) as u8,
        ];
        assert(octets@ =~= address_octets(self.bits));
        octets
    }

    /// The unspecified address, `0.0.0.0`.
    pub fn unspecified() -> (address: Address)
        ensures
            address.bits == 0,
    {
        Address { bits: 0 }
    }

    /// The limited broadcast address, `255.255.255.255`.
    pub fn broadcast() -> (address: Address)
        ensures
            address.bits == 0xffff_ffff,
    {
        Address { bits: 0xffff_ffff }
    }

    /// Query whether the address is the unspecified address.
    pub fn is_unspecified(&self) -> (r: bool)
        ensures
            r == (self.bits == 0),
    {
        self.bits == 0
    }

    /// Query whether the address is the limited broadcast address.
    pub fn is_broadcast(&self) -> (r: bool)
        ensures
            r == (self.bits == 0xffff_ffff),
    {
        self.bits == 0xffff_ffff
    }

    /// Query whether the address is a multicast group, in `224.0.0.0/4`.
    pub fn is_multicast(&self) -> (r: bool)
        ensures
            r == self.spec_is_multicast(),
    {
        self.bits / 0x1000_0000 == 0xe
    }

    /// Query whether the address is a loopback address, in `127.0.0.0/8`.
    pub fn is_loopback(&self) -> (r: bool)
        ensures
            r == (self.bits / 0x100_0000 == 127),
    {
        self.bits / 0x100_0000 == 127
    }

    /// Query whether the address is a link-local address, in `169.254.0.0/16`.
    pub fn is_link_local(&self) -> (r: bool)
        ensures
            r == (self.bits / 0x1_0000 == 0xa9fe),
    {
        self.bits / 0x1_0000 == 0xa9fe
    }

    /// Query whether the address is an unicast address.
    pub fn x_is_unicast(&self) -> (r: bool)
        ensures
            r == self.spec_is_unicast(),
    {
        !(self.is_broadcast() || self.is_multicast() || self.is_unspecified())
    }

    /// If `self` is a CIDR-compatible subnet mask, return `Some(prefix_len)`, where
    /// `prefix_len` is the number of leading ones. Return `None` otherwise.
    pub fn prefix_len(&self) -> (prefix_len: Option<u8>)
        ensures
            prefix_len matches Some(n) ==> n <= 32 && self.bits == prefix_mask(32, n as nat),
            prefix_len is None ==> forall|n: nat| n <= 32 ==> self.bits != #[trigger] prefix_mask(32, n),
    {
        let mut n: u8 = 0;
        while n <= 32
            invariant
                n <= 33,
                forall|m: nat| m < n ==> self.bits != #[trigger] prefix_mask(32, m),
            decreases 33 - n,
        {
            proof {
                lemma_pow2_32();
            }
            if self.bits as u64 == 0x1_0000_0000 - block_size_32(n) {
                return Some(n);
            }
            n = n + 1;
        }
        None
    }

    /// The Ethernet address this multicast address maps to (RFC 1112 §6.4).
    ///
    /// The mapping drops the top 5 bits of the group, so distinct groups can map to the same
    /// Ethernet address.
    pub fn multicast_ethernet_addr(&self) -> (address: ethernet::Address)
        requires
            self.spec_is_multicast(),
        ensures
            address@ == seq![
                0x01u8,
                0x00,
                0x5e,
                (self.bits / 0x1_0000 % 0x80) as u8,
                (self.bits / 0x100 % 0x100) as u8,
                (self.bits % 0x100) as u8,
            ],
    {
        let address = ethernet::Address(
            [
                0x01,
                0x00,
                0x5e,
                (self.bits / 0x1_0000 % 0x80) as u8,
                (self.bits / 0x100 % 0x100) as u8,
                (self.bits % 0x100) as u8,
            ],
        );
        assert(address@ =~= seq![
            0x01u8,
            0x00,
            0x5e,
            (self.bits / 0x1_0000 % 0x80) as u8,
            (self.bits / 0x100 % 0x100) as u8,
            (self.bits % 0x100) as u8,
        ]);
        address
    }
}

/// All multicast-capable nodes, `224.0.0.1`.
pub fn multicast_all_systems() -> (address: Address)
    ensures
        address.bits == 0xe000_0001,
{
    Address { bits: 0xe000_0001 }
}

/// All multicast-capable routers, `224.0.0.2`.
pub fn multicast_all_routers() -> (address: Address)
    ensures
        address.bits == 0xe000_0002,
{
    Address { bits: 0xe000_0002 }
}

/// A specification of an IPv4 CIDR block, containing an address and a variable-length
/// subnet masking prefix length.
#[derive(Debug, Hash, PartialEq, Eq, Structural, PartialOrd, Ord, Clone, Copy)]
pub struct Cidr {
    address: Address,
    prefix_len: u8,
}

impl Cidr {
    #[verifier::type_invariant]
    spec fn inv(self) -> bool {
        self.prefix_len <= 32
    }

    /// The address of the block.
    pub closed spec fn spec_address(self) -> Address {
        self.address
    }

    /// The prefix length of the block.
    pub closed spec fn spec_prefix_len(self) -> nat {
        self.prefix_len as nat
    }

    /// Whether the block has the given address and prefix length.
    pub open spec fn is(self, address: Address, prefix_len: nat) -> bool {
        self.spec_address() == address && self.spec_prefix_len() == prefix_len
    }

    /// Whether the block holds `addr`.
    pub open spec fn spec_contains(self, addr: Address) -> bool {
        same_prefix(32, self.spec_prefix_len(), self.spec_address().bits as int, addr.bits as int)
    }

    /// The broadcast address, which is the last address of the block. Blocks of one or two
    /// addresses do not have one.
    pub open spec fn spec_last_address(self) -> Option<Address> {
        if self.spec_prefix_len() >= 31 {
            None
        } else {
            Some(
                Address {
                    bits: last_of_block(
                        32,
                        self.spec_prefix_len(),
                        self.spec_address().bits as int,
                    ) as u32,
                },
            )
        }
    }

    /// Whether the block holds the block `subnet`.
    pub open spec fn spec_contains_subnet(self, subnet: Cidr) -> bool {
        self.spec_prefix_len() <= subnet.spec_prefix_len() && self.spec_contains(
            subnet.spec_address(),
        )
    }

    /// Create an IPv4 CIDR block from the given address and prefix length.
    ///
    /// Return `None` if the prefix length is larger than 32.
    pub fn try_new(address: Address, prefix_len: u8) -> (cidr: Option<Cidr>)
        ensures
            cidr is Some <==> prefix_len <= 32,
            cidr matches Some(c) ==> c.is(address, prefix_len as nat),
    {
        if prefix_len <= 32 {
            Some(Cidr { address, prefix_len })
        } else {
            None
        }
    }

    /// Create a CIDR block from what the text before and behind the separator parses as, `None`
    /// where it does not parse.
    pub fn from_parts(
        address: Option<Address>,
        prefix_len: Option<u8>,
    ) -> (cidr: core::result::Result<Cidr, ParseError>)
        ensures
            match (address, prefix_len) {
                (None, _) => cidr == Err::<Cidr, ParseError>(ParseError::Addr),
                (Some(_), None) => cidr == Err::<Cidr, ParseError>(ParseError::PrefixLen),
                (Some(a), Some(p)) => if p <= 32 {
                    cidr matches Ok(c) && c.is(a, p as nat)
                } else {
                    cidr == Err::<Cidr, ParseError>(ParseError::PrefixLenTooLarge)
                },
            },
    {
        let address = match address {
            Some(address) => address,
            None => return Err(ParseError::Addr),
        };
        let prefix_len: u8 = match prefix_len {
            Some(prefix_len) => prefix_len,
            None => return Err(ParseError::PrefixLen),
        };
        match Cidr::try_new(address, prefix_len) {
            Some(cidr) => Ok(cidr),
            None => Err(ParseError::PrefixLenTooLarge),
        }
    }

    /// Create an IPv4 CIDR block from the given address and prefix length, which is at most
    /// 32.
    pub fn new(address: Address, prefix_len: u8) -> (cidr: Cidr)
        requires
            prefix_len <= 32,
        ensures
            cidr.is(address, prefix_len as nat),
    {
        Cidr { address, prefix_len }
    }

    /// Create an IPv4 CIDR block from the given address and network mask.
    ///
    /// Return an error unless the mask is a non-empty run of ones followed by zeroes.
    pub fn from_netmask(addr: Address, netmask: Address) -> (cidr: Result<Cidr>)
        ensures
            cidr matches Ok(c) ==> {
                &&& 1 <= c.spec_prefix_len() <= 32
                &&& netmask.bits == prefix_mask(32, c.spec_prefix_len())
                &&& c.spec_address() == addr
            },
            cidr is Err ==> forall|n: nat|
                1 <= n <= 32 ==> netmask.bits != #[trigger] prefix_mask(32, n),
    {
        match netmask.prefix_len() {
            Some(prefix_len) if prefix_len > 0 => Ok(Cidr { address: addr, prefix_len }),
            _ => {
                proof {
                    lemma_pow2_32();
                    assert forall|n: nat| 1 <= n <= 32 implies netmask.bits != #[trigger] prefix_mask(
                        32,
                        n,
                    ) by {
                        lemma_block_size(32, n);
                    }
                }
                Err(Error)
            },
        }
    }

    /// Return the address of this IPv4 CIDR block.
    pub fn address(&self) -> (address: Address)
        ensures
            address == self.spec_address(),
    {
        self.address
    }

    /// Return the prefix length of this IPv4 CIDR block.
    pub fn prefix_len(&self) -> (prefix_len: u8)
        ensures
            prefix_len == self.spec_prefix_len(),
            prefix_len <= 32,
    {
        proof {
            use_type_invariant(self);
        }
        self.prefix_len
    }

    /// Return the network mask of this IPv4 CIDR.
    pub fn netmask(&self) -> (mask: Address)
        ensures
            mask.bits == prefix_mask(32, self.spec_prefix_len()),
    {
        proof {
            use_type_invariant(self);
            lemma_pow2_32();
            lemma_block_size(32, self.prefix_len as nat);
        }
        if self.prefix_len == 0 {
            return Address { bits: 0 };
        }
        Address { bits: (0x1_0000_0000 - block_size_32(self.prefix_len)) as u32 }
    }

    /// Return the broadcast address of this IPv4 CIDR, which blocks of one or two addresses
    /// do not have.
    pub fn broadcast(&self) -> (address: Option<Address>)
        ensures
            address == self.spec_last_address(),
            address is None <==> self.spec_prefix_len() >= 31,
            address matches Some(a) ==> a.bits == last_of_block(
                32,
                self.spec_prefix_len(),
                self.spec_address().bits as int,
            ),
            address matches Some(a) ==> self.spec_contains(a) && forall|x: Address| #[trigger]
                self.spec_contains(x) ==> x.bits <= a.bits,
    {
        proof {
            use_type_invariant(self);
            lemma_pow2_32();
            law_block_bounds(32, self.prefix_len as nat, self.address.bits as int, 0);
        }
        let network = self.network();
        if self.prefix_len == 31 || self.prefix_len == 32 {
            return None;
        }
        let last: u64 = network.address.bits as u64 + (block_size_32(self.prefix_len) - 1);
        let address = Address { bits: last as u32 };
        proof {
            law_last_address(*self, address);
            assert forall|x: Address| #[trigger] self.spec_contains(x) implies x.bits
                <= address.bits by {
                law_last_address(*self, x);
            }
        }
        Some(address)
    }

    /// Return the network block of this IPv4 CIDR.
    pub fn network(&self) -> (network: Cidr)
        ensures
            network.spec_prefix_len() == self.spec_prefix_len(),
            network.spec_address().bits == first_of_block(
                32,
                self.spec_prefix_len(),
                self.spec_address().bits as int,
            ),
    {
        proof {
            use_type_invariant(self);
            lemma_pow2_32();
            law_block_bounds(32, self.prefix_len as nat, self.address.bits as int, 0);
        }
        let bits: u64 = self.address.bits as u64;
        let first: u64 = bits - bits % block_size_32(self.prefix_len);
        Cidr { address: Address { bits: first as u32 }, prefix_len: self.prefix_len }
    }

    /// Query whether the subnetwork described by this IPv4 CIDR block contains the given
    /// address.
    pub fn contains_addr(&self, addr: &Address) -> (r: bool)
        ensures
            r == self.spec_contains(*addr),
    {
        proof {
            use_type_invariant(self);
        }
        let size: u64 = block_size_32(self.prefix_len);
        self.address.bits as u64 / size == addr.bits as u64 / size
    }

    /// Query whether the subnetwork described by this IPv4 CIDR block contains the
    /// subnetwork described by the given IPv4 CIDR block.
    pub fn contains_subnet(&self, subnet: &Cidr) -> (r: bool)
        ensures
            r == self.spec_contains_subnet(*subnet),
    {
        self.prefix_len <= subnet.prefix_len && self.contains_addr(&subnet.address)
    }
}

/// A block contains its own address, and itself.
pub proof fn law_contains_itself(cidr: Cidr)
    ensures
        cidr.spec_contains(cidr.spec_address()),
        cidr.spec_contains_subnet(cidr),
{
}

/// What a subnet contains, the block that contains the subnet contains too.
pub proof fn law_contains_subnet(cidr: Cidr, subnet: Cidr, addr: Address)
    requires
        subnet.spec_prefix_len() <= 32,
        cidr.spec_contains_subnet(subnet),
        subnet.spec_contains(addr),
    ensures
        cidr.spec_contains(addr),
{
    law_longer_prefix(
        32,
        cidr.spec_prefix_len(),
        subnet.spec_prefix_len(),
        subnet.spec_address().bits as int,
        addr.bits as int,
    );
}

/// A block contains a subnet exactly if it contains every address of the subnet.
pub proof fn law_subnet_addresses(cidr: Cidr, subnet: Cidr)
    requires
        cidr.spec_prefix_len() <= 32,
        subnet.spec_prefix_len() <= 32,
    ensures
        cidr.spec_contains_subnet(subnet) <==> forall|addr: Address| #[trigger]
            subnet.spec_contains(addr) ==> cidr.spec_contains(addr),
{
    let a = cidr.spec_address().bits as int;
    let b = subnet.spec_address().bits as int;
    if cidr.spec_contains_subnet(subnet) {
        assert forall|addr: Address| #[trigger] subnet.spec_contains(
            addr,
        ) implies cidr.spec_contains(addr) by {
            law_contains_subnet(cidr, subnet, addr);
        }
    }
    if forall|addr: Address| #[trigger]
        subnet.spec_contains(addr) ==> cidr.spec_contains(addr) {
        lemma_pow2_32();
        law_block_bounds(32, subnet.spec_prefix_len(), b, b);
        let first = Address { bits: first_of_block(32, subnet.spec_prefix_len(), b) as u32 };
        let last = Address { bits: last_of_block(32, subnet.spec_prefix_len(), b) as u32 };
        assert(subnet.spec_contains(first));
        assert(subnet.spec_contains(last));
        law_block_within(32, cidr.spec_prefix_len(), subnet.spec_prefix_len(), a, b);
    }
}

/// A subnet of a subnet is a subnet.
pub proof fn law_subnet_transitive(a: Cidr, b: Cidr, c: Cidr)
    requires
        b.spec_prefix_len() <= 32,
        a.spec_contains_subnet(b),
        b.spec_contains_subnet(c),
    ensures
        a.spec_contains_subnet(c),
{
    law_contains_subnet(a, b, c.spec_address());
}

/// The network block of a block contains the same addresses, and is its own network block.
/// The broadcast address is the last of them.
pub proof fn law_network(cidr: Cidr, network: Cidr, addr: Address)
    requires
        cidr.spec_prefix_len() <= 32,
        network.spec_prefix_len() == cidr.spec_prefix_len(),
        network.spec_address().bits == first_of_block(
            32,
            cidr.spec_prefix_len(),
            cidr.spec_address().bits as int,
        ),
    ensures
        network.spec_contains(addr) == cidr.spec_contains(addr),
        network.spec_address().bits == first_of_block(
            32,
            cidr.spec_prefix_len(),
            network.spec_address().bits as int,
        ),
        cidr.spec_contains(addr) <==> network.spec_address().bits <= addr.bits <= last_of_block(
            32,
            cidr.spec_prefix_len(),
            cidr.spec_address().bits as int,
        ),
{
    lemma_pow2_32();
    law_block_bounds(
        32,
        cidr.spec_prefix_len(),
        cidr.spec_address().bits as int,
        addr.bits as int,
    );
}

/// Blocks of one or two addresses have no broadcast address. That of a larger block is in the
/// block, and no address of the block is greater.
pub proof fn law_last_address(cidr: Cidr, addr: Address)
    requires
        cidr.spec_prefix_len() <= 32,
    ensures
        cidr.spec_last_address() is None <==> cidr.spec_prefix_len() >= 31,
        cidr.spec_last_address() matches Some(last) ==> {
            &&& last.bits == last_of_block(
                32,
                cidr.spec_prefix_len(),
                cidr.spec_address().bits as int,
            )
            &&& cidr.spec_contains(last)
            &&& cidr.spec_contains(addr) ==> addr.bits <= last.bits
        },
{
    lemma_pow2_32();
    law_block_bounds(
        32,
        cidr.spec_prefix_len(),
        cidr.spec_address().bits as int,
        addr.bits as int,
    );
}

/// The prefix length of a network mask is the one of the block that the mask was made for.
pub proof fn law_netmask(mask: Address, p: nat, q: nat)
    requires
        p <= 32,
        q <= 32,
        mask.bits == prefix_mask(32, p),
        mask.bits == prefix_mask(32, q),
    ensures
        p == q,
{
    law_prefix_mask_injective(32, p, q);
}

/// The fields of an IPv4 header.
pub struct Header {
    /// The version.
    pub version: int,
    /// The header length, in octets.
    pub header_len: int,
    /// The Differential Services Code Point.
    pub dscp: int,
    /// The Explicit Congestion Notification.
    pub ecn: int,
    /// The total length.
    pub total_len: int,
    /// The fragment identification.
    pub ident: int,
    /// The reserved flag.
    pub reserved: bool,
    /// The "don't fragment" flag.
    pub dont_frag: bool,
    /// The "more fragments" flag.
    pub more_frags: bool,
    /// The fragment offset, in octets.
    pub frag_offset: int,
    /// The time to live.
    pub hop_limit: u8,
    /// The protocol of the payload.
    pub next_header: Protocol,
    /// The header checksum.
    pub checksum: int,
    /// The source address.
    pub src_addr: Address,
    /// The destination address.
    pub dst_addr: Address,
}

/// The fields of the header that `s` starts with.
pub open spec fn header(s: Seq<u8>) -> Header {
    Header {
        version: s[0] as int / 16,
        header_len: s[0] as int % 16 * 4,
        dscp: s[1] as int / 4,
        ecn: s[1] as int % 4,
        total_len: be16(s, 2),
        ident: be16(s, 4),
        reserved: has_bit(be16(s, 6), 0x8000),
        dont_frag: has_bit(be16(s, 6), 0x4000),
        more_frags: has_bit(be16(s, 6), 0x2000),
        frag_offset: be16(s, 6) % 0x2000 * 8,
        hop_limit: s[8],
        next_header: Protocol(s[9]),
        checksum: be16(s, 10),
        src_addr: Address { bits: be32(s, 12) as u32 },
        dst_addr: Address { bits: be32(s, 16) as u32 },
    }
}

/// Whether `s` starts with an IPv4 packet: it holds the header, which is at least 20 octets
/// long, and the whole of the packet, which is no shorter than its header.
pub open spec fn well_formed(s: Seq<u8>) -> bool {
    &&& s.len() >= HEADER_LEN
    &&& HEADER_LEN <= header(s).header_len <= header(s).total_len <= s.len()
}

/// The payload of the packet that `s` starts with.
pub open spec fn payload(s: Seq<u8>) -> Seq<u8> {
    s.subrange(header(s).header_len, header(s).total_len)
}

/// `s` with the low four bits of `v` stored as the version.
pub open spec fn with_version(s: Seq<u8>, v: u8) -> Seq<u8> {
    s.update(0, (v % 16 * 16 + s[0] % 16) as u8)
}

/// `s` with `v` stored as the header length, in octets: rounded down to a multiple of four, of
/// which the field holds the low four bits.
pub open spec fn with_header_len(s: Seq<u8>, v: u8) -> Seq<u8> {
    s.update(0, (s[0] / 16 * 16 + v / 4 % 16) as u8)
}

/// `s` with the low six bits of `v` stored as the Differential Services Code Point.
pub open spec fn with_dscp(s: Seq<u8>, v: u8) -> Seq<u8> {
    s.update(1, (v % 64 * 4 + s[1] % 4) as u8)
}

/// `s` with the low two bits of `v` stored as the Explicit Congestion Notification.
pub open spec fn with_ecn(s: Seq<u8>, v: u8) -> Seq<u8> {
    s.update(1, (s[1] / 4 * 4 + v % 4) as u8)
}

/// `s` with the three flags cleared.
pub open spec fn with_cleared_flags(s: Seq<u8>) -> Seq<u8> {
    put16(s, 6, be16(s, 6) % 0x2000)
}

/// `s` with the flag of the given weight set or cleared.
pub open spec fn with_flag(s: Seq<u8>, weight: int, value: bool) -> Seq<u8> {
    put16(s, 6, with_bit(be16(s, 6), weight, value))
}

/// `s` with `v`, in octets, stored as the fragment offset, in units of eight octets.
pub open spec fn with_frag_offset(s: Seq<u8>, v: u16) -> Seq<u8> {
    put16(s, 6, be16(s, 6) / 0x2000 * 0x2000 + v / 8)
}

/// `s` with the checksum of its header filled in.
pub open spec fn with_filled_checksum(s: Seq<u8>) -> Seq<u8> {
    let zeroed = put16(s, 10, 0);
    put16(zeroed, 10, 0xffff - fold(word_sum(zeroed.take(header(s).header_len))))
}

/// A read/write wrapper around an Internet Protocol version 4 packet buffer.
#[derive(Debug, PartialEq, Eq)]
pub struct Packet<'a> {
    /// The octets of the packet.
    pub buffer: &'a mut [u8],
}

impl<'a> View for Packet<'a> {
    type V = Seq<u8>;

    open spec fn view(&self) -> Seq<u8> {
        self.buffer@
    }
}

impl<'a> Packet<'a> {
    /// Imbue a raw octet buffer with packet structure.
    pub fn new_unchecked(buffer: &'a mut [u8]) -> (packet: Packet<'a>)
        ensures
            packet@ == old(buffer)@,
            final(packet.buffer)@ == final(buffer)@,
    {
        Packet { buffer }
    }

    /// Shorthand for a combination of [`new_unchecked`](Packet::new_unchecked) and
    /// [`check_len`](Packet::check_len).
    pub fn new_checked(buffer: &'a mut [u8]) -> (packet: Result<Packet<'a>>)
        ensures
            packet is Ok <==> well_formed(old(buffer)@),
            packet matches Ok(p) ==> p@ == old(buffer)@ && final(p.buffer)@ == final(buffer)@,
            packet is Err ==> final(buffer)@ == old(buffer)@,
    {
        let packet = Self::new_unchecked(buffer);
        match packet.check_len() {
            Ok(()) => Ok(packet),
            Err(error) => Err(error),
        }
    }

    /// Ensure that no accessor method will panic if called.
    ///
    /// Returns an error if the buffer is too short, if the header length is greater than the
    /// total length, or if the header length is less than the minimum.
    ///
    /// The result of this check is invalidated by calling
    /// [`set_header_len`](Packet::set_header_len) and
    /// [`set_total_len`](Packet::set_total_len).
    pub fn check_len(&self) -> (result: Result<()>)
        ensures
            result is Ok <==> well_formed(self@),
    {
        let len: usize = self.buffer.len();
        if len < HEADER_LEN {
            Err(Error)
        } else if len < self.header_len() as usize {
            Err(Error)
        } else if self.header_len() as u16 > self.total_len() {
            Err(Error)
        } else if len < self.total_len() as usize {
            Err(Error)
        } else if (self.header_len() as usize) < HEADER_LEN {
            Err(Error)
        } else {
            Ok(())
        }
    }

    /// Return the version field.
    pub fn version(&self) -> (value: u8)
        requires
            self@.len() >= 1,
        ensures
            value == header(self@).version,
    {
        self.buffer[0] / 16
    }

    /// Return the header length, in octets.
    pub fn header_len(&self) -> (value: u8)
        requires
            self@.len() >= 1,
        ensures
            value == header(self@).header_len,
    {
        (self.buffer[0] % 16) * 4
    }

    /// Return the Differential Services Code Point field.
    pub fn dscp(&self) -> (value: u8)
        requires
            self@.len() >= 2,
        ensures
            value == header(self@).dscp,
    {
        self.buffer[1] / 4
    }

    /// Return the Explicit Congestion Notification field.
    pub fn ecn(&self) -> (value: u8)
        requires
            self@.len() >= 2,
        ensures
            value == header(self@).ecn,
    {
        self.buffer[1] % 4
    }

    /// Return the total length field.
    pub fn total_len(&self) -> (value: u16)
        requires
            self@.len() >= 4,
        ensures
            value == header(self@).total_len,
    {
        read_u16(self.buffer, 2)
    }

    /// Return the fragment identification field.
    pub fn ident(&self) -> (value: u16)
        requires
            self@.len() >= 6,
        ensures
            value == header(self@).ident,
    {
        read_u16(self.buffer, 4)
    }

    /// Return the "don't fragment" flag.
    pub fn dont_frag(&self) -> (value: bool)
        requires
            self@.len() >= 8,
        ensures
            value == header(self@).dont_frag,
    {
        read_u16(self.buffer, 6) / 0x4000 % 2 == 1
    }

    /// Return the "more fragments" flag.
    pub fn more_frags(&self) -> (value: bool)
        requires
            self@.len() >= 8,
        ensures
            value == header(self@).more_frags,
    {
        read_u16(self.buffer, 6) / 0x2000 % 2 == 1
    }

    /// Return the fragment offset, in octets.
    pub fn frag_offset(&self) -> (value: u16)
        requires
            self@.len() >= 8,
        ensures
            value == header(self@).frag_offset,
    {
        read_u16(self.buffer, 6) % 0x2000 * 8
    }

    /// Return the time to live field.
    pub fn hop_limit(&self) -> (value: u8)
        requires
            self@.len() >= 9,
        ensures
            value == header(self@).hop_limit,
    {
        self.buffer[8]
    }

    /// Return the next_header (protocol) field.
    pub fn next_header(&self) -> (value: Protocol)
        requires
            self@.len() >= 10,
        ensures
            value == header(self@).next_header,
    {
        Protocol::from(self.buffer[9])
    }

    /// Return the header checksum field.
    pub fn checksum(&self) -> (value: u16)
        requires
            self@.len() >= 12,
        ensures
            value == header(self@).checksum,
    {
        read_u16(self.buffer, 10)
    }

    /// Return the source address field.
    pub fn src_addr(&self) -> (value: Address)
        requires
            self@.len() >= 16,
        ensures
            value == header(self@).src_addr,
    {
        Address { bits: read_u32(self.buffer, 12) }
    }

    /// Return the destination address field.
    pub fn dst_addr(&self) -> (value: Address)
        requires
            self@.len() >= 20,
        ensures
            value == header(self@).dst_addr,
    {
        Address { bits: read_u32(self.buffer, 16) }
    }

    /// Validate the header checksum.
    pub fn verify_checksum(&self) -> (value: bool)
        requires
            self@.len() >= 1,
            header(self@).header_len <= self@.len(),
        ensures
            value == (fold(word_sum(self@.take(header(self@).header_len))) == 0xffff),
    {
        let header_len: usize = self.header_len() as usize;
        checksum::data(&self.buffer[0..header_len]) == 0xffff
    }

    /// Return a pointer to the payload.
    pub fn payload(&self) -> (value: &[u8])
        requires
            self@.len() >= 4,
            header(self@).header_len <= header(self@).total_len <= self@.len(),
        ensures
            value@ == payload(self@),
    {
        let start: usize = self.header_len() as usize;
        let end: usize = self.total_len() as usize;
        &self.buffer[start..end]
    }

    /// Set the version field.
    pub fn set_version(&mut self, value: u8)
        requires
            old(self)@.len() >= 1,
        ensures
            final(self)@ == with_version(old(self)@, value),
            final(final(self).buffer)@ == final(old(self).buffer)@,
    {
        self.buffer[0] = (value % 16) * 16 + self.buffer[0] % 16;
    }

    /// Set the header length, in octets.
    pub fn set_header_len(&mut self, value: u8)
        requires
            old(self)@.len() >= 1,
        ensures
            final(self)@ == with_header_len(old(self)@, value),
            final(final(self).buffer)@ == final(old(self).buffer)@,
    {
        self.buffer[0] = self.buffer[0] / 16 * 16 + value / 4 % 16;
    }

    /// Set the Differential Services Code Point field.
    pub fn set_dscp(&mut self, value: u8)
        requires
            old(self)@.len() >= 2,
        ensures
            final(self)@ == with_dscp(old(self)@, value),
            final(final(self).buffer)@ == final(old(self).buffer)@,
    {
        self.buffer[1] = (value % 64) * 4 + self.buffer[1] % 4;
    }

    /// Set the Explicit Congestion Notification field.
    pub fn set_ecn(&mut self, value: u8)
        requires
            old(self)@.len() >= 2,
        ensures
            final(self)@ == with_ecn(old(self)@, value),
            final(final(self).buffer)@ == final(old(self).buffer)@,
    {
        self.buffer[1] = self.buffer[1] / 4 * 4 + value % 4;
    }

    /// Set the total length field.
    pub fn set_total_len(&mut self, value: u16)
        requires
            old(self)@.len() >= 4,
        ensures
            final(self)@ == put16(old(self)@, 2, value as int),
            final(final(self).buffer)@ == final(old(self).buffer)@,
    {
        write_u16(self.buffer, 2, value);
    }

    /// Set the fragment identification field.
    pub fn set_ident(&mut self, value: u16)
        requires
            old(self)@.len() >= 6,
        ensures
            final(self)@ == put16(old(self)@, 4, value as int),
            final(final(self).buffer)@ == final(old(self).buffer)@,
    {
        write_u16(self.buffer, 4, value);
    }

    /// Clear the entire flags field.
    pub fn clear_flags(&mut self)
        requires
            old(self)@.len() >= 8,
        ensures
            final(self)@ == with_cleared_flags(old(self)@),
            final(final(self).buffer)@ == final(old(self).buffer)@,
    {
        let raw: u16 = read_u16(self.buffer, 6);
        write_u16(self.buffer, 6, raw % 0x2000);
    }

    /// Set the "don't fragment" flag.
    pub fn set_dont_frag(&mut self, value: bool)
        requires
            old(self)@.len() >= 8,
        ensures
            final(self)@ == with_flag(old(self)@, 0x4000, value),
            final(final(self).buffer)@ == final(old(self).buffer)@,
    {
        let raw: u16 = read_u16(self.buffer, 6);
        proof {
            lemma_bit_u16(raw, 0x4000);
        }
        let raw: u16 = if value {
            raw | 0x4000
        } else {
            raw & !0x4000
        };
        write_u16(self.buffer, 6, raw);
    }

    /// Set the "more fragments" flag.
    pub fn set_more_frags(&mut self, value: bool)
        requires
            old(self)@.len() >= 8,
        ensures
            final(self)@ == with_flag(old(self)@, 0x2000, value),
            final(final(self).buffer)@ == final(old(self).buffer)@,
    {
        let raw: u16 = read_u16(self.buffer, 6);
        proof {
            lemma_bit_u16(raw, 0x2000);
        }
        let raw: u16 = if value {
            raw | 0x2000
        } else {
            raw & !0x2000
        };
        write_u16(self.buffer, 6, raw);
    }

    /// Set the fragment offset, in octets.
    pub fn set_frag_offset(&mut self, value: u16)
        requires
            old(self)@.len() >= 8,
        ensures
            final(self)@ == with_frag_offset(old(self)@, value),
            final(final(self).buffer)@ == final(old(self).buffer)@,
    {
        let raw: u16 = read_u16(self.buffer, 6);
        write_u16(self.buffer, 6, raw / 0x2000 * 0x2000 + value / 8);
    }

    /// Set the time to live field.
    pub fn set_hop_limit(&mut self, value: u8)
        requires
            old(self)@.len() >= 9,
        ensures
            final(self)@ == old(self)@.update(8, value),
            final(final(self).buffer)@ == final(old(self).buffer)@,
    {
        self.buffer[8] = value;
    }

    /// Set the next header (protocol) field.
    pub fn set_next_header(&mut self, value: Protocol)
        requires
            old(self)@.len() >= 10,
        ensures
            final(self)@ == old(self)@.update(9, value.0),
            final(final(self).buffer)@ == final(old(self).buffer)@,
    {
        self.buffer[9] = value.0;
    }

    /// Set the header checksum field.
    pub fn set_checksum(&mut self, value: u16)
        requires
            old(self)@.len() >= 12,
        ensures
            final(self)@ == put16(old(self)@, 10, value as int),
            final(final(self).buffer)@ == final(old(self).buffer)@,
    {
        write_u16(self.buffer, 10, value);
    }

    /// Set the source address field.
    pub fn set_src_addr(&mut self, value: Address)
        requires
            old(self)@.len() >= 16,
        ensures
            final(self)@ == put32(old(self)@, 12, value.bits as int),
            final(final(self).buffer)@ == final(old(self).buffer)@,
    {
        write_u32(self.buffer, 12, value.bits);
    }

    /// Set the destination address field.
    pub fn set_dst_addr(&mut self, value: Address)
        requires
            old(self)@.len() >= 20,
        ensures
            final(self)@ == put32(old(self)@, 16, value.bits as int),
            final(final(self).buffer)@ == final(old(self).buffer)@,
    {
        write_u32(self.buffer, 16, value.bits);
    }

    /// Compute and fill in the header checksum.
    pub fn fill_checksum(&mut self)
        requires
            old(self)@.len() >= 12,
            header(old(self)@).header_len <= old(self)@.len(),
        ensures
            final(self)@ == with_filled_checksum(old(self)@),
            final(final(self).buffer)@ == final(old(self).buffer)@,
    {
        self.set_checksum(0);
        let header_len: usize = self.header_len() as usize;
        let sum: u16 = checksum::data(&self.buffer[0..header_len]);
        self.set_checksum(0xffff - sum);
    }

    /// Return a mutable pointer to the payload.
    pub fn payload_mut(&mut self) -> (value: &mut [u8])
        requires
            old(self)@.len() >= 4,
            header(old(self)@).header_len <= header(old(self)@).total_len <= old(self)@.len(),
        ensures
            value@ == payload(old(self)@),
            final(self)@ == old(self)@.take(header(old(self)@).header_len) + final(value)@ + old(
                self,
            )@.skip(header(old(self)@).total_len),
            final(final(self).buffer)@ == final(old(self).buffer)@,
    {
        let start: usize = self.header_len() as usize;
        let end: usize = self.total_len() as usize;
        sub_slice_mut(self.buffer, start, end)
    }
}

/// Every setter changes its own field and no other: the version and the header length.
pub proof fn law_set_version(s: Seq<u8>, version: u8, header_len: u8)
    requires
        s.len() >= HEADER_LEN,
    ensures
        header(with_version(s, version)) == (Header { version: version as int % 16, ..header(s) }),
        header(with_header_len(s, header_len)) == (Header {
            header_len: header_len as int / 4 % 16 * 4,
            ..header(s)
        }),
        with_version(s, version).skip(HEADER_LEN as int) == s.skip(HEADER_LEN as int),
        with_header_len(s, header_len).skip(HEADER_LEN as int) == s.skip(HEADER_LEN as int),
{
}

/// Every setter changes its own field and no other: the traffic class octet.
pub proof fn law_set_dscp_ecn(s: Seq<u8>, dscp: u8, ecn: u8)
    requires
        s.len() >= HEADER_LEN,
    ensures
        header(with_dscp(s, dscp)) == (Header { dscp: dscp as int % 64, ..header(s) }),
        header(with_ecn(s, ecn)) == (Header { ecn: ecn as int % 4, ..header(s) }),
        with_dscp(s, dscp).skip(HEADER_LEN as int) == s.skip(HEADER_LEN as int),
        with_ecn(s, ecn).skip(HEADER_LEN as int) == s.skip(HEADER_LEN as int),
{
}

/// Every setter changes its own field and no other: the fields of whole octets.
pub proof fn law_set_octets(
    s: Seq<u8>,
    total_len: u16,
    ident: u16,
    hop_limit: u8,
    next_header: Protocol,
    checksum: u16,
    src_addr: Address,
    dst_addr: Address,
)
    requires
        s.len() >= HEADER_LEN,
    ensures
        header(put16(s, 2, total_len as int)) == (Header { total_len: total_len as int, ..header(s) }),
        header(put16(s, 4, ident as int)) == (Header { ident: ident as int, ..header(s) }),
        header(s.update(8, hop_limit)) == (Header { hop_limit, ..header(s) }),
        header(s.update(9, next_header.0)) == (Header { next_header, ..header(s) }),
        header(put16(s, 10, checksum as int)) == (Header { checksum: checksum as int, ..header(s) }),
        header(put32(s, 12, src_addr.bits as int)) == (Header { src_addr, ..header(s) }),
        header(put32(s, 16, dst_addr.bits as int)) == (Header { dst_addr, ..header(s) }),
{
    law_put32(s, 12, src_addr.bits as int);
    law_put32(s, 16, dst_addr.bits as int);
}

/// How the flags and the fragment offset share a 16-bit number.
proof fn lemma_flags(raw: u16, units: u16, value: bool)
    requires
        units < 0x2000,
    ensures
        ({
            let cleared = raw as int % 0x2000;
            &&& !has_bit(cleared, 0x8000) && !has_bit(cleared, 0x4000) && !has_bit(cleared, 0x2000)
            &&& cleared % 0x2000 == raw as int % 0x2000
        }),
        ({
            let df = with_bit(raw as int, 0x4000, value);
            &&& 0 <= df < 0x1_0000
            &&& has_bit(df, 0x4000) == value
            &&& has_bit(df, 0x8000) == has_bit(raw as int, 0x8000)
            &&& has_bit(df, 0x2000) == has_bit(raw as int, 0x2000)
            &&& df % 0x2000 == raw as int % 0x2000
        }),
        ({
            let mf = with_bit(raw as int, 0x2000, value);
            &&& 0 <= mf < 0x1_0000
            &&& has_bit(mf, 0x2000) == value
            &&& has_bit(mf, 0x8000) == has_bit(raw as int, 0x8000)
            &&& has_bit(mf, 0x4000) == has_bit(raw as int, 0x4000)
            &&& mf % 0x2000 == raw as int % 0x2000
        }),
        ({
            let offset = raw as int / 0x2000 * 0x2000 + units;
            &&& 0 <= offset < 0x1_0000
            &&& has_bit(offset, 0x8000) == has_bit(raw as int, 0x8000)
            &&& has_bit(offset, 0x4000) == has_bit(raw as int, 0x4000)
            &&& has_bit(offset, 0x2000) == has_bit(raw as int, 0x2000)
            &&& offset % 0x2000 == units
        }),
{
    let r = raw as int;
    law_with_bit(r, 0x4000, value, 0x8000);
    law_with_bit(r, 0x4000, value, 0x2000);
    law_with_bit(r, 0x2000, value, 0x8000);
    law_with_bit(r, 0x2000, value, 0x4000);
    let top = r / 0x2000;
    let offset = top * 0x2000 + units;
    assert(offset / 0x2000 == top && offset % 0x2000 == units);
    assert(r / 0x4000 == top / 2 && r / 0x8000 == top / 4);
    assert(offset / 0x4000 == top / 2 && offset / 0x8000 == top / 4);
}

/// Every setter changes its own field and no other: the flags and the fragment offset.
pub proof fn law_set_flags(s: Seq<u8>, value: bool, frag_offset: u16)
    requires
        s.len() >= HEADER_LEN,
    ensures
        header(with_cleared_flags(s)) == (Header {
            reserved: false,
            dont_frag: false,
            more_frags: false,
            ..header(s)
        }),
        header(with_flag(s, 0x4000, value)) == (Header { dont_frag: value, ..header(s) }),
        header(with_flag(s, 0x2000, value)) == (Header { more_frags: value, ..header(s) }),
        header(with_frag_offset(s, frag_offset)) == (Header {
            frag_offset: frag_offset as int / 8 * 8,
            ..header(s)
        }),
{
    let raw = be16(s, 6);
    lemma_flags(raw as u16, (frag_offset / 8) as u16, value);
    law_put16(s, 6, raw % 0x2000);
    law_put16(s, 6, with_bit(raw, 0x4000, value));
    law_put16(s, 6, with_bit(raw, 0x2000, value));
    law_put16(s, 6, raw / 0x2000 * 0x2000 + frag_offset / 8);
    assert(header(with_cleared_flags(s)) == (Header {
        reserved: false,
        dont_frag: false,
        more_frags: false,
        ..header(s)
    }));
    assert(header(with_flag(s, 0x4000, value)) == (Header { dont_frag: value, ..header(s) }));
    assert(header(with_flag(s, 0x2000, value)) == (Header { more_frags: value, ..header(s) }));
}

/// A packet whose header checksum was filled in passes the checksum validation.
pub proof fn law_filled_checksum(s: Seq<u8>)
    requires
        s.len() >= 12,
        12 <= header(s).header_len <= s.len(),
    ensures
        fold(
            word_sum(
                with_filled_checksum(s).take(header(with_filled_checksum(s)).header_len),
            ),
        ) == 0xffff,
{
    let n = header(s).header_len;
    let zeroed = put16(s, 10, 0);
    let sum = word_sum(zeroed.take(n));
    let c = 0xffff - fold(sum);
    assert(with_filled_checksum(s).take(n) =~= put16(zeroed.take(n), 10, c));
    law_word_sum_put16(zeroed.take(n), 10, c);
    law_complement(sum);
}

/// If the length check succeeds, every accessor may be called.
pub proof fn law_well_formed(s: Seq<u8>)
    requires
        well_formed(s),
    ensures
        s.len() >= 20,
        header(s).header_len <= header(s).total_len <= s.len(),
        payload(s).len() == header(s).total_len - header(s).header_len,
{
}

/// Which addresses are multicast groups, and which are unicast addresses: the groups are those
/// from `224.0.0.0` to `239.255.255.255`, and every other address is a unicast address but
/// `0.0.0.0` and `255.255.255.255`.
pub proof fn law_address_class(address: Address)
    ensures
        address.spec_is_multicast() <==> 0xe000_0000 <= address.bits <= 0xefff_ffff,
        address.spec_is_unicast() <==> 0 < address.bits < 0xe000_0000 || 0xf000_0000 <= address.bits
            < 0xffff_ffff,
        address.spec_is_multicast() <==> 224 <= address_octets(address.bits)[0] <= 239,
{
}

/// Where the fields of the header are, octet by octet.
pub proof fn law_header(s: Seq<u8>)
    ensures
        ({
            let h = header(s);
            &&& s[0] == 16 * h.version + h.header_len / 4
            &&& h.header_len % 4 == 0 && 0 <= h.header_len < 64
            &&& s[1] == 4 * h.dscp + h.ecn
            &&& 0 <= h.ecn < 4
            &&& h.total_len == 256 * s[2] + s[3]
            &&& h.ident == 256 * s[4] + s[5]
            &&& h.reserved <==> s[6] >= 128
            &&& h.dont_frag <==> s[6] % 128 >= 64
            &&& h.more_frags <==> s[6] % 64 >= 32
            &&& h.frag_offset == 8 * (256 * (s[6] % 32) + s[7])
            &&& h.hop_limit == s[8]
            &&& h.next_header.0 == s[9]
            &&& h.checksum == 256 * s[10] + s[11]
            &&& h.src_addr.bits == 0x100_0000 * s[12] + 0x1_0000 * s[13] + 0x100 * s[14] + s[15]
            &&& h.dst_addr.bits == 0x100_0000 * s[16] + 0x1_0000 * s[17] + 0x100 * s[18] + s[19]
        }),
        well_formed(s) <==> {
            &&& s.len() >= 20
            &&& s[0] % 16 >= 5
            &&& 4 * (s[0] % 16) <= 256 * s[2] + s[3] <= s.len()
        },
        well_formed(s) ==> payload(s) == s.subrange(4 * (s[0] % 16), 256 * s[2] + s[3]),
{
}

} // verus!

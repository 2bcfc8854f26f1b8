//! Ethernet frames.

use vstd::prelude::*;

verus! {

/// The length of an Ethernet header.
pub const HEADER_LEN: usize = 14;

/// Ethertype: IPv4.
pub const ETHERTYPE_IPV4: u16 = 0x0800;

/// Ethertype: ARP.
pub const ETHERTYPE_ARP: u16 = 0x0806;

/// Ethertype: IPv6.
pub const ETHERTYPE_IPV6: u16 = 0x86dd;

/// The protocol of the payload of an Ethernet frame.
#[derive(Debug, Clone, Copy, PartialEq, Eq, Structural, Hash, PartialOrd, Ord)]
pub struct EtherType(pub u16);

/// A six-octet Ethernet address.
#[derive(Debug, Clone, Copy, Eq, Hash, PartialOrd, Ord)]
pub struct Address(pub [u8; 6]);

impl View for Address {
    type V = Seq<u8>;

    open spec fn view(&self) -> Seq<u8> {
        self.0@
    }
}

impl PartialEq for Address {
    fn eq(&self, other: &Address) -> (equal: bool) {
        let equal = self.0[0] == other.0[0] && self.0[1] == other.0[1] && self.0[2] == other.0[2]
            && self.0[3] == other.0[3] && self.0[4] == other.0[4] && self.0[5] == other.0[5];
        proof {
            if equal {
                assert(self.0 =~= other.0);
            }
        }
        equal
    }
}

impl vstd::std_specs::cmp::PartialEqSpecImpl for Address {
    open spec fn obeys_eq_spec() -> bool {
        true
    }

    open spec fn eq_spec(&self, other: &Address) -> bool {
        *self == *other
    }
}

/// An octet with the bit that tells universal from local addresses flipped.
pub open spec fn flip_universal(octet: u8) -> u8 {
    if octet / 2 % 2 == 1 {
        (octet - 2) as u8
    } else {
        (octet + 2) as u8
    }
}

/// An octet with the bit that tells universal from local addresses flipped.
pub(crate) fn flip_universal_bit(octet: u8) -> (flipped: u8)
    ensures
        flipped == flip_universal(octet),
{
    if octet / 2 % 2 == 1 {
        octet - 2
    } else {
        octet + 2
    }
}

/// The octets of the Ethernet broadcast address.
pub open spec fn broadcast_octets() -> Seq<u8> {
    seq![0xffu8, 0xff, 0xff, 0xff, 0xff, 0xff]
}

impl Address {
    /// The broadcast address.
    pub fn broadcast() -> (address: Address)
        ensures
            address@ == broadcast_octets(),
    {
        let address = Address([0xff, 0xff, 0xff, 0xff, 0xff, 0xff]);
        assert(address@ =~= broadcast_octets());
        address
    }

    /// Construct an address from its octets.
    pub fn from_bytes(data: &[u8]) -> (address: Address)
        requires
            data@.len() == 6,
        ensures
            address@ == data@,
    {
        let address = Address([data[0], data[1], data[2], data[3], data[4], data[5]]);
        assert(address@ =~= data@);
        address
    }

    /// The octets of the address.
    pub fn as_bytes(&self) -> (bytes: &[u8])
        ensures
            bytes@ == self@,
    {
        &self.0
    }

    /// Convert the address to a modified EUI-64 interface identifier.
    pub fn as_eui_64(&self) -> (eui: [u8; 8])
        ensures
            eui@ == seq![
                flip_universal(self@[0]),
                self@[1],
                self@[2],
                0xffu8,
                0xfeu8,
                self@[3],
                self@[4],
                self@[5],
            ],
    {
        let first: u8 = flip_universal_bit(self.0[0]);
        let eui: [u8; 8] = [
            first,
            self.0[1],
            self.0[2],
            0xff,
            0xfe,
            self.0[3],
            self.0[4],
            self.0[5],
        ];
        assert(eui@ =~= seq![
            flip_universal(self@[0]),
            self@[1],
            self@[2],
            0xffu8,
            0xfeu8,
            self@[3],
            self@[4],
            self@[5],
        ]);
        eui
    }

    /// Query whether the address is the broadcast address.
    pub fn is_broadcast(&self) -> (r: bool)
        ensures
            r == (self@ == broadcast_octets()),
    {
        let broadcast = Address::broadcast();
        proof {
            if self@ == broadcast_octets() {
                assert forall|i: int| 0 <= i < 6 implies self.0[i] == broadcast.0[i] by {
                    assert(self@[i] == broadcast@[i]);
                }
                assert(self.0 =~= broadcast.0);
            }
        }
        *self == broadcast
    }

    /// Query whether the "multicast" bit of the first octet is set.
    pub fn is_multicast(&self) -> (r: bool)
        ensures
            r == (self@[0] % 2 == 1),
    {
        self.0[0] % 2 == 1
    }

    /// Query whether the address is a unicast address: neither the broadcast address nor a
    /// multicast one.
    pub fn is_unicast(&self) -> (r: bool)
        ensures
            r == (self@ != broadcast_octets() && self@[0] % 2 == 0),
    {
        !(self.is_broadcast() || self.is_multicast())
    }
}

} // verus!

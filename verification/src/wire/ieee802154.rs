//! IEEE 802.15.4 addresses.

use vstd::prelude::*;

use super::ethernet::{flip_universal, flip_universal_bit};

verus! {

/// An IEEE 802.15.4 address.
#[derive(Debug, Clone, Copy, Eq)]
pub enum Address {
    /// The absence of an address.
    Absent,
    /// A short address.
    Short([u8; 2]),
    /// An extended address.
    Extended([u8; 8]),
}

impl View for Address {
    type V = Seq<u8>;

    open spec fn view(&self) -> Seq<u8> {
        match *self {
            Address::Absent => seq![],
            Address::Short(octets) => octets@,
            Address::Extended(octets) => octets@,
        }
    }
}

impl PartialEq for Address {
    fn eq(&self, other: &Address) -> (equal: bool) {
        match (self, other) {
            (Address::Absent, Address::Absent) => true,
            (Address::Short(a), Address::Short(b)) => {
                let equal = a[0] == b[0] && a[1] == b[1];
                proof {
                    if equal {
                        assert(a =~= b);
                    }
                }
                equal
            },
            (Address::Extended(a), Address::Extended(b)) => {
                let equal = a[0] == b[0] && a[1] == b[1] && a[2] == b[2] && a[3] == b[3] && a[4]
                    == b[4] && a[5] == b[5] && a[6] == b[6] && a[7] == b[7];
                proof {
                    if equal {
                        assert(a =~= b);
                    }
                }
                equal
            },
            _ => false,
        }
    }
}

impl vstd::std_specs::cmp::PartialEqSpecImpl for Address {
    open spec fn obeys_eq_spec() -> bool {
        true
    }

    open spec fn eq_spec(&self, other: &Address) -> bool {
        *self == *other
    }
}

impl Address {
    /// Whether the address is the broadcast address, the short address of all ones.
    pub open spec fn spec_is_broadcast(self) -> bool {
        self is Short && self@ == seq![0xffu8, 0xffu8]
    }

    /// The broadcast address.
    pub fn broadcast() -> (address: Address)
        ensures
            address.spec_is_broadcast(),
    {
        let address = Address::Short([0xff, 0xff]);
        assert(address@ =~= seq![0xffu8, 0xffu8]);
        address
    }

    /// Construct an address from its octets: two of a short address, eight of an extended one.
    pub fn from_bytes(data: &[u8]) -> (address: Address)
        requires
            data@.len() == 2 || data@.len() == 8,
        ensures
            address@ == data@,
            address is Short <==> data@.len() == 2,
            address is Extended <==> data@.len() == 8,
    {
        let address = if data.len() == 2 {
            Address::Short([data[0], data[1]])
        } else {
            Address::Extended(
                [data[0], data[1], data[2], data[3], data[4], data[5], data[6], data[7]],
            )
        };
        assert(address@ =~= data@);
        address
    }

    /// The octets of the address.
    pub fn as_bytes(&self) -> (bytes: &[u8])
        ensures
            bytes@ == self@,
    {
        match self {
            Address::Absent => {
                let none: &[u8] = &[];
                assert(none@ =~= seq![]);
                none
            },
            Address::Short(octets) => octets,
            Address::Extended(octets) => octets,
        }
    }

    /// Query whether the address is the broadcast address.
    pub fn is_broadcast(&self) -> (r: bool)
        ensures
            r == self.spec_is_broadcast(),
    {
        match self {
            Address::Short(octets) => {
                let r = octets[0] == 0xff && octets[1] == 0xff;
                proof {
                    if r {
                        assert(self@ =~= seq![0xffu8, 0xffu8]);
                    }
                }
                r
            },
            _ => false,
        }
    }

    /// Query whether the address is an unicast address.
    pub fn is_unicast(&self) -> (r: bool)
        ensures
            r == !self.spec_is_broadcast(),
    {
        !self.is_broadcast()
    }

    /// Convert the address to a modified EUI-64 interface identifier, which only an extended
    /// address has.
    pub fn as_eui_64(&self) -> (eui: Option<[u8; 8]>)
        ensures
            eui is Some <==> self is Extended,
            eui matches Some(octets) ==> octets@ == self@.update(0, flip_universal(self@[0])),
    {
        match self {
            Address::Extended(a) => {
                let eui: [u8; 8] = [
                    flip_universal_bit(a[0]),
                    a[1],
                    a[2],
                    a[3],
                    a[4],
                    a[5],
                    a[6],
                    a[7],
                ];
                assert(eui@ =~= self@.update(0, flip_universal(self@[0])));
                Some(eui)
            },
            _ => None,
        }
    }
}

} // verus!

//! Hardware (link-layer) addresses.

use vstd::prelude::*;

use super::ethernet::{broadcast_octets, flip_universal};
use super::ethernet::Address as EthernetAddress;
use super::ieee802154::Address as Ieee802154Address;
use super::{Error, Result};
use crate::driver;
use crate::driver::Medium;

verus! {

/// A hardware (link-layer) address.
#[derive(Debug, Clone, Copy, Eq)]
pub enum HardwareAddress {
    /// An Ethernet (MAC) address.
    Ethernet(EthernetAddress),
    /// No address, for interfaces that send and receive bare IP packets.
    Ip,
    /// An IEEE 802.15.4 address.
    Ieee802154(Ieee802154Address),
}

impl View for HardwareAddress {
    type V = Seq<u8>;

    open spec fn view(&self) -> Seq<u8> {
        match *self {
            HardwareAddress::Ethernet(addr) => addr@,
            HardwareAddress::Ip => seq![],
            HardwareAddress::Ieee802154(addr) => addr@,
        }
    }
}

impl PartialEq for HardwareAddress {
    fn eq(&self, other: &HardwareAddress) -> (equal: bool) {
        match (self, other) {
            (HardwareAddress::Ethernet(a), HardwareAddress::Ethernet(b)) => *a == *b,
            (HardwareAddress::Ip, HardwareAddress::Ip) => true,
            (HardwareAddress::Ieee802154(a), HardwareAddress::Ieee802154(b)) => *a == *b,
            _ => false,
        }
    }
}

impl vstd::std_specs::cmp::PartialEqSpecImpl for HardwareAddress {
    open spec fn obeys_eq_spec() -> bool {
        true
    }

    open spec fn eq_spec(&self, other: &HardwareAddress) -> bool {
        *self == *other
    }
}

impl HardwareAddress {
    /// The medium this kind of address belongs to.
    pub open spec fn spec_medium(self) -> Medium {
        match self {
            HardwareAddress::Ethernet(_) => Medium::Ethernet,
            HardwareAddress::Ip => Medium::Ip,
            HardwareAddress::Ieee802154(_) => Medium::Ieee802154,
        }
    }

    /// Whether the address is the broadcast address of its medium.
    pub open spec fn spec_is_broadcast(self) -> bool {
        match self {
            HardwareAddress::Ethernet(addr) => addr@ == broadcast_octets(),
            HardwareAddress::Ip => false,
            HardwareAddress::Ieee802154(addr) => addr.spec_is_broadcast(),
        }
    }

    /// Whether the address is an unicast address.
    pub open spec fn spec_is_unicast(self) -> bool {
        match self {
            HardwareAddress::Ethernet(addr) => addr@ != broadcast_octets() && addr@[0] % 2 == 0,
            HardwareAddress::Ip => false,
            HardwareAddress::Ieee802154(addr) => !addr.spec_is_broadcast(),
        }
    }

    /// The modified EUI-64 interface identifier of the address.
    pub open spec fn spec_eui_64(self) -> Option<Seq<u8>> {
        match self {
            HardwareAddress::Ethernet(addr) => Some(
                seq![
                    flip_universal(addr@[0]),
                    addr@[1],
                    addr@[2],
                    0xffu8,
                    0xfeu8,
                    addr@[3],
                    addr@[4],
                    addr@[5],
                ],
            ),
            HardwareAddress::Ip => None,
            HardwareAddress::Ieee802154(addr) => if addr is Extended {
                Some(addr@.update(0, flip_universal(addr@[0])))
            } else {
                None
            },
        }
    }

    /// The medium this kind of address belongs to.
    pub fn medium(&self) -> (medium: Medium)
        ensures
            medium == self.spec_medium(),
    {
        match self {
            HardwareAddress::Ethernet(_) => Medium::Ethernet,
            HardwareAddress::Ip => Medium::Ip,
            HardwareAddress::Ieee802154(_) => Medium::Ieee802154,
        }
    }

    /// The address as bytes. Empty for [`Ip`](HardwareAddress::Ip).
    pub fn as_bytes(&self) -> (bytes: &[u8])
        ensures
            bytes@ == self@,
            bytes@.len() <= MAX_HARDWARE_ADDRESS_LEN,
    {
        match self {
            HardwareAddress::Ethernet(addr) => addr.as_bytes(),
            HardwareAddress::Ip => {
                let none: &[u8] = &[];
                assert(none@ =~= seq![]);
                none
            },
            HardwareAddress::Ieee802154(addr) => addr.as_bytes(),
        }
    }

    /// Query whether the address is an unicast address.
    ///
    /// `false` for [`Ip`](HardwareAddress::Ip).
    pub fn is_unicast(&self) -> (r: bool)
        ensures
            r == self.spec_is_unicast(),
    {
        match self {
            HardwareAddress::Ethernet(addr) => addr.is_unicast(),
            HardwareAddress::Ip => false,
            HardwareAddress::Ieee802154(addr) => addr.is_unicast(),
        }
    }

    /// Query whether the address is the broadcast address of its medium.
    ///
    /// `false` for [`Ip`](HardwareAddress::Ip).
    pub fn is_broadcast(&self) -> (r: bool)
        ensures
            r == self.spec_is_broadcast(),
    {
        match self {
            HardwareAddress::Ethernet(addr) => addr.is_broadcast(),
            HardwareAddress::Ip => false,
            HardwareAddress::Ieee802154(addr) => addr.is_broadcast(),
        }
    }

    /// Convert the address to a modified EUI-64 interface identifier.
    ///
    /// `None` for [`Ip`](HardwareAddress::Ip), and for a short or absent 802.15.4 address.
    pub fn as_eui_64(&self) -> (eui: Option<[u8; 8]>)
        ensures
            eui is Some <==> self.spec_eui_64() is Some,
            eui matches Some(octets) ==> self.spec_eui_64() == Some(octets@),
    {
        match self {
            HardwareAddress::Ethernet(addr) => Some(addr.as_eui_64()),
            HardwareAddress::Ip => None,
            HardwareAddress::Ieee802154(addr) => addr.as_eui_64(),
        }
    }

    /// The IEEE 802.15.4 address, or `None` if this is not one.
    pub fn ieee802154(&self) -> (address: Option<Ieee802154Address>)
        ensures
            address == match *self {
                HardwareAddress::Ieee802154(addr) => Some(addr),
                _ => None,
            },
    {
        match self {
            HardwareAddress::Ieee802154(addr) => Some(*addr),
            _ => None,
        }
    }

    /// The IEEE 802.15.4 address of a hardware address that is one.
    pub fn ieee802154_or_panic(&self) -> (address: Ieee802154Address)
        requires
            self is Ieee802154,
        ensures
            *self == HardwareAddress::Ieee802154(address),
    {
        match self {
            HardwareAddress::Ieee802154(addr) => *addr,
            _ => Ieee802154Address::Absent,
        }
    }

    /// The Ethernet address, or `None` if this is not one.
    pub fn ethernet(&self) -> (address: Option<EthernetAddress>)
        ensures
            address == match *self {
                HardwareAddress::Ethernet(addr) => Some(addr),
                _ => None,
            },
    {
        match self {
            HardwareAddress::Ethernet(addr) => Some(*addr),
            _ => None,
        }
    }

    /// The Ethernet address of a hardware address that is one.
    pub fn ethernet_or_panic(&self) -> (address: EthernetAddress)
        requires
            self is Ethernet,
        ensures
            *self == HardwareAddress::Ethernet(address),
    {
        match self {
            HardwareAddress::Ethernet(addr) => *addr,
            _ => EthernetAddress::broadcast(),
        }
    }

    /// What [`to_driver`](HardwareAddress::to_driver) returns.
    pub open spec fn spec_to_driver(self) -> Option<driver::HardwareAddress> {
        match self {
            HardwareAddress::Ethernet(addr) => Some(driver::HardwareAddress::Ethernet(addr.0)),
            HardwareAddress::Ip => Some(driver::HardwareAddress::Ip),
            HardwareAddress::Ieee802154(Ieee802154Address::Extended(octets)) => Some(
                driver::HardwareAddress::Ieee802154(octets),
            ),
            _ => None,
        }
    }

    /// What [`from_driver`](HardwareAddress::from_driver) returns.
    pub open spec fn spec_from_driver(addr: driver::HardwareAddress) -> Option<HardwareAddress> {
        match addr {
            driver::HardwareAddress::Ethernet(octets) => Some(
                HardwareAddress::Ethernet(EthernetAddress(octets)),
            ),
            driver::HardwareAddress::Ip => Some(HardwareAddress::Ip),
            driver::HardwareAddress::Ieee802154(octets) => Some(
                HardwareAddress::Ieee802154(Ieee802154Address::Extended(octets)),
            ),
        }
    }

    /// Convert to the address type drivers report.
    ///
    /// Returns `None` for an IEEE 802.15.4 address that is not an extended address: drivers
    /// report extended addresses only.
    pub fn to_driver(&self) -> (addr: Option<driver::HardwareAddress>)
        ensures
            addr == self.spec_to_driver(),
    {
        match self {
            HardwareAddress::Ethernet(addr) => Some(driver::HardwareAddress::Ethernet(addr.0)),
            HardwareAddress::Ip => Some(driver::HardwareAddress::Ip),
            HardwareAddress::Ieee802154(addr) => match addr {
                Ieee802154Address::Extended(octets) => Some(
                    driver::HardwareAddress::Ieee802154(*octets),
                ),
                _ => None,
            },
        }
    }

    /// Convert from the address type drivers report. Every medium is supported, so this
    /// always returns an address.
    pub fn from_driver(addr: driver::HardwareAddress) -> (address: Option<HardwareAddress>)
        ensures
            address == Self::spec_from_driver(addr),
    {
        match addr {
            driver::HardwareAddress::Ethernet(octets) => Some(
                HardwareAddress::Ethernet(EthernetAddress(octets)),
            ),
            driver::HardwareAddress::Ip => Some(HardwareAddress::Ip),
            driver::HardwareAddress::Ieee802154(octets) => Some(
                HardwareAddress::Ieee802154(Ieee802154Address::Extended(octets)),
            ),
        }
    }
}

impl From<Ieee802154Address> for HardwareAddress {
    fn from(addr: Ieee802154Address) -> (address: HardwareAddress) {
        HardwareAddress::Ieee802154(addr)
    }
}

impl vstd::std_specs::convert::FromSpecImpl<Ieee802154Address> for HardwareAddress {
    open spec fn obeys_from_spec() -> bool {
        true
    }

    open spec fn from_spec(addr: Ieee802154Address) -> HardwareAddress {
        HardwareAddress::Ieee802154(addr)
    }
}

impl From<EthernetAddress> for HardwareAddress {
    fn from(addr: EthernetAddress) -> (address: HardwareAddress) {
        HardwareAddress::Ethernet(addr)
    }
}

impl vstd::std_specs::convert::FromSpecImpl<EthernetAddress> for HardwareAddress {
    open spec fn obeys_from_spec() -> bool {
        true
    }

    open spec fn from_spec(addr: EthernetAddress) -> HardwareAddress {
        HardwareAddress::Ethernet(addr)
    }
}

/// What a driver reports survives the conversion and back, and so does every hardware address
/// that a driver can report.
pub proof fn law_driver_round_trip(reported: driver::HardwareAddress, addr: HardwareAddress)
    ensures
        HardwareAddress::spec_from_driver(reported) matches Some(a) && a.spec_to_driver() == Some(
            reported,
        ),
        addr.spec_to_driver() matches Some(d) ==> HardwareAddress::spec_from_driver(d) == Some(addr),
{
}

/// The longest hardware address of any medium.
pub const MAX_HARDWARE_ADDRESS_LEN: usize = 8;

/// Unparsed hardware address.
///
/// Used to make NDISC parsing agnostic of the hardware medium in use.
#[derive(Debug, Clone, Copy, Eq)]
pub struct RawHardwareAddress {
    len: u8,
    data: [u8; 8],
}

impl PartialEq for RawHardwareAddress {
    fn eq(&self, other: &RawHardwareAddress) -> (equal: bool) {
        let a = &self.data;
        let b = &other.data;
        let equal = a[0] == b[0] && a[1] == b[1] && a[2] == b[2] && a[3] == b[3] && a[4] == b[4]
            && a[5] == b[5] && a[6] == b[6] && a[7] == b[7];
        proof {
            if equal {
                assert(self.data =~= other.data);
            }
        }
        equal && self.len == other.len
    }
}

impl vstd::std_specs::cmp::PartialEqSpecImpl for RawHardwareAddress {
    open spec fn obeys_eq_spec() -> bool {
        true
    }

    open spec fn eq_spec(&self, other: &RawHardwareAddress) -> bool {
        *self == *other
    }
}

impl View for RawHardwareAddress {
    type V = Seq<u8>;

    closed spec fn view(&self) -> Seq<u8> {
        self.data@.take(self.len as int)
    }
}

impl RawHardwareAddress {
    /// The octets after the address are zero, so that equal addresses are equal values.
    #[verifier::type_invariant]
    spec fn inv(self) -> bool {
        &&& self.len <= 8
        &&& forall|i: int| self.len <= i < 8 ==> self.data@[i] == 0
    }

    /// Create a new `RawHardwareAddress` from a byte slice of at most
    /// [`MAX_HARDWARE_ADDRESS_LEN`] octets.
    pub fn from_bytes(addr: &[u8]) -> (raw: RawHardwareAddress)
        requires
            addr@.len() <= MAX_HARDWARE_ADDRESS_LEN,
        ensures
            raw == RawHardwareAddress::of(addr@),
            raw@ == addr@,
    {
        let len: usize = addr.len();
        let mut data: [u8; 8] = [0; 8];
        let mut i: usize = 0;
        while i < len
            invariant
                i <= len <= 8,
                len == addr@.len(),
                data@.len() == 8,
                forall|j: int| 0 <= j < i ==> data@[j] == addr@[j],
                forall|j: int| i <= j < 8 ==> data@[j] == 0,
            decreases len - i,
        {
            data[i] = addr[i];
            i = i + 1;
        }
        assert(data@.take(len as int) =~= addr@);
        let raw = RawHardwareAddress { len: len as u8, data };
        proof {
            raw.lemma_of();
        }
        raw
    }

    /// The octets of the address.
    pub fn as_bytes(&self) -> (bytes: &[u8])
        ensures
            bytes@ == self@,
            bytes@.len() <= MAX_HARDWARE_ADDRESS_LEN,
            *self == RawHardwareAddress::of(self@),
    {
        proof {
            use_type_invariant(self);
            self.lemma_of();
        }
        let octets: &[u8] = &self.data;
        let len: usize = self.len as usize;
        &octets[0..len]
    }

    /// The number of octets of the address.
    pub fn len(&self) -> (len: usize)
        ensures
            len == self@.len(),
            len <= MAX_HARDWARE_ADDRESS_LEN,
    {
        proof {
            use_type_invariant(self);
        }
        self.len as usize
    }

    /// Query whether the address has no octets.
    pub fn is_empty(&self) -> (r: bool)
        ensures
            r == (self@.len() == 0),
    {
        proof {
            use_type_invariant(self);
        }
        self.len == 0
    }

    /// Parse the address as an address of the given medium.
    ///
    /// Returns an error if the length is wrong for the medium: 6 bytes for Ethernet, 8 (an
    /// extended address) for IEEE 802.15.4, or if the medium has no addresses.
    pub fn parse(&self, medium: Medium) -> (address: Result<HardwareAddress>)
        ensures
            address is Ok <==> raw_len(medium) == Some(self@.len()),
            address matches Ok(a) ==> {
                &&& a@ == self@
                &&& a.spec_medium() == medium
                &&& a matches HardwareAddress::Ieee802154(x) ==> x is Extended
            },
    {
        match medium {
            Medium::Ethernet => {
                if self.len() != 6 {
                    return Err(Error);
                }
                Ok(HardwareAddress::Ethernet(EthernetAddress::from_bytes(self.as_bytes())))
            },
            Medium::Ieee802154 => {
                if self.len() != 8 {
                    return Err(Error);
                }
                Ok(HardwareAddress::Ieee802154(Ieee802154Address::from_bytes(self.as_bytes())))
            },
            Medium::Ip => Err(Error),
        }
    }
}

/// The number of octets of an address of the given medium, if it has addresses.
pub open spec fn raw_len(medium: Medium) -> Option<nat> {
    match medium {
        Medium::Ethernet => Some(6),
        Medium::Ieee802154 => Some(8),
        Medium::Ip => None,
    }
}

impl RawHardwareAddress {
    /// The unparsed address with the given octets.
    pub closed spec fn of(octets: Seq<u8>) -> RawHardwareAddress {
        RawHardwareAddress {
            len: octets.len() as u8,
            data: [
                padded(octets, 0),
                padded(octets, 1),
                padded(octets, 2),
                padded(octets, 3),
                padded(octets, 4),
                padded(octets, 5),
                padded(octets, 6),
                padded(octets, 7),
            ],
        }
    }

    /// There is one unparsed address with given octets.
    proof fn lemma_of(self)
        requires
            self.inv(),
        ensures
            self == Self::of(self@),
    {
        let other = Self::of(self@);
        assert(self@.len() == self.len);
        assert forall|i: int| 0 <= i < 8 implies self.data[i] == other.data[i] by {
            assert(other.data[i] == padded(self@, i));
        }
        assert(self.data =~= other.data);
    }
}

impl From<EthernetAddress> for RawHardwareAddress {
    fn from(addr: EthernetAddress) -> (raw: RawHardwareAddress) {
        RawHardwareAddress::from_bytes(addr.as_bytes())
    }
}

impl vstd::std_specs::convert::FromSpecImpl<EthernetAddress> for RawHardwareAddress {
    open spec fn obeys_from_spec() -> bool {
        true
    }

    open spec fn from_spec(addr: EthernetAddress) -> RawHardwareAddress {
        RawHardwareAddress::of(addr@)
    }
}

impl From<Ieee802154Address> for RawHardwareAddress {
    fn from(addr: Ieee802154Address) -> (raw: RawHardwareAddress) {
        RawHardwareAddress::from_bytes(addr.as_bytes())
    }
}

impl vstd::std_specs::convert::FromSpecImpl<Ieee802154Address> for RawHardwareAddress {
    open spec fn obeys_from_spec() -> bool {
        true
    }

    open spec fn from_spec(addr: Ieee802154Address) -> RawHardwareAddress {
        RawHardwareAddress::of(addr@)
    }
}

impl From<HardwareAddress> for RawHardwareAddress {
    fn from(addr: HardwareAddress) -> (raw: RawHardwareAddress) {
        RawHardwareAddress::from_bytes(addr.as_bytes())
    }
}

impl vstd::std_specs::convert::FromSpecImpl<HardwareAddress> for RawHardwareAddress {
    open spec fn obeys_from_spec() -> bool {
        true
    }

    open spec fn from_spec(addr: HardwareAddress) -> RawHardwareAddress {
        RawHardwareAddress::of(addr@)
    }
}

/// The octet at position `i`, where zeroes follow the octets.
spec fn padded(octets: Seq<u8>, i: int) -> u8 {
    if i < octets.len() {
        octets[i]
    } else {
        0
    }
}

/// The unparsed address with the given octets has these octets.
pub proof fn law_raw_octets(octets: Seq<u8>)
    requires
        octets.len() <= MAX_HARDWARE_ADDRESS_LEN,
    ensures
        RawHardwareAddress::of(octets)@ == octets,
{
    assert(RawHardwareAddress::of(octets)@ =~= octets);
}

/// Unparsed addresses are equal exactly if their octets are.
pub proof fn law_raw_equal(a: Seq<u8>, b: Seq<u8>)
    requires
        a.len() <= MAX_HARDWARE_ADDRESS_LEN,
        b.len() <= MAX_HARDWARE_ADDRESS_LEN,
    ensures
        RawHardwareAddress::of(a) == RawHardwareAddress::of(b) <==> a == b,
{
    law_raw_octets(a);
    law_raw_octets(b);
}

/// Making an unparsed address of the octets of one gives that one back.
pub proof fn law_raw_rebuilt(raw: RawHardwareAddress, octets: Seq<u8>)
    requires
        octets.len() <= MAX_HARDWARE_ADDRESS_LEN,
        raw == RawHardwareAddress::of(octets),
    ensures
        raw@ == octets,
        RawHardwareAddress::of(raw@) == raw,
{
    law_raw_octets(octets);
}

/// Parsing the octets of a hardware address, of a medium with addresses of that length, gives
/// that address back.
pub proof fn law_raw_round_trip(addr: HardwareAddress, parsed: HardwareAddress)
    requires
        raw_len(addr.spec_medium()) == Some(addr@.len()),
        parsed@ == addr@,
        parsed.spec_medium() == addr.spec_medium(),
        parsed matches HardwareAddress::Ieee802154(x) ==> x is Extended,
    ensures
        parsed == addr,
{
    match (addr, parsed) {
        (HardwareAddress::Ethernet(a), HardwareAddress::Ethernet(b)) => {
            assert forall|i: int| 0 <= i < 6 implies a.0[i] == b.0[i] by {
                assert(a@[i] == b@[i]);
            }
            assert(a.0 =~= b.0);
        },
        (
            HardwareAddress::Ieee802154(Ieee802154Address::Extended(a)),
            HardwareAddress::Ieee802154(Ieee802154Address::Extended(b)),
        ) => {
            assert forall|i: int| 0 <= i < 8 implies a[i] == b[i] by {
                assert(a@[i] == b@[i]);
            }
            assert(a =~= b);
        },
        _ => {},
    }
}

/// The hexadecimal digit of a number below sixteen.
pub open spec fn hex_digit(n: int) -> u8 {
    (if n < 10 {
        0x30 + n
    } else {
        0x61 + n - 10
    }) as u8
}

/// The text of an address: two hexadecimal digits per octet, separated by colons.
pub open spec fn hex_text(octets: Seq<u8>) -> Seq<u8>
    decreases octets.len(),
{
    if octets.len() == 0 {
        seq![]
    } else {
        let last = seq![hex_digit(octets.last() as int / 16), hex_digit(octets.last() as int % 16)];
        if octets.len() == 1 {
            last
        } else {
            hex_text(octets.drop_last()).push(0x3a) + last
        }
    }
}

/// The hexadecimal digit of a number below sixteen.
fn digit(n: u8) -> (c: u8)
    requires
        n < 16,
    ensures
        c == hex_digit(n as int),
{
    if n < 10 {
        0x30 + n
    } else {
        0x61 + (n - 10)
    }
}

impl RawHardwareAddress {
    /// The text of the address, in ASCII: two hexadecimal digits per octet, separated by
    /// colons.
    pub fn text(&self) -> (text: Vec<u8>)
        ensures
            text@ == hex_text(self@),
    {
        let octets: &[u8] = self.as_bytes();
        let len: usize = octets.len();
        let mut text: Vec<u8> = Vec::new();
        let mut i: usize = 0;
        assert(octets@.take(0) =~= seq![]);
        while i < len
            invariant
                i <= len,
                len == octets@.len(),
                text@ == hex_text(octets@.take(i as int)),
            decreases len - i,
        {
            let b: u8 = octets[i];
            let ghost before = text@;
            if i != 0 {
                text.push(0x3a);
            }
            text.push(digit(b / 16));
            text.push(digit(b % 16));
            proof {
                let next = octets@.take(i + 1);
                assert(next.drop_last() =~= octets@.take(i as int));
                assert(next.last() == b);
                let last = seq![hex_digit(b as int / 16), hex_digit(b as int % 16)];
                if i == 0 {
                    assert(text@ =~= last);
                } else {
                    assert(text@ =~= before.push(0x3a) + last);
                }
            }
            i = i + 1;
        }
        assert(octets@.take(len as int) =~= octets@);
        text
    }
}

/// Which addresses are unicast addresses: Ethernet addresses whose first octet is even, and IEEE
/// 802.15.4 addresses but the short one of all ones. The latter, and the Ethernet address of all
/// ones, are the broadcast addresses.
pub proof fn law_address_kind(addr: HardwareAddress)
    ensures
        addr is Ethernet ==> (addr.spec_is_unicast() <==> addr@[0] % 2 == 0),
        addr is Ethernet ==> (addr.spec_is_broadcast() <==> forall|i: int|
            0 <= i < 6 ==> #[trigger] addr@[i] == 0xff),
        addr is Ip ==> !addr.spec_is_unicast() && !addr.spec_is_broadcast(),
        addr matches HardwareAddress::Ieee802154(a) ==> {
            &&& addr.spec_is_unicast() <==> !addr.spec_is_broadcast()
            &&& addr.spec_is_broadcast() <==> a is Short && addr@[0] == 0xff && addr@[1] == 0xff
        },
{
    if addr is Ethernet {
        assert(broadcast_octets()[0] % 2 == 1);
        if addr@ == broadcast_octets() {
            assert forall|i: int| 0 <= i < 6 implies #[trigger] addr@[i] == 0xff by {
                assert(addr@[i] == broadcast_octets()[i]);
            }
        }
        if forall|i: int| 0 <= i < 6 ==> #[trigger] addr@[i] == 0xff {
            assert(addr@ =~= broadcast_octets());
        }
    }
    if let HardwareAddress::Ieee802154(a) = addr {
        if a is Short && addr@[0] == 0xff && addr@[1] == 0xff {
            assert(a@ =~= seq![0xffu8, 0xffu8]);
        }
    }
}

/// What the interface identifier of an address is: the eight octets of an extended address, or the
/// halves of an Ethernet address with `ff:fe` between them, with the second lowest bit of the
/// first octet flipped and nothing else changed. Other addresses do not have one.
pub proof fn law_eui_64(addr: HardwareAddress)
    ensures
        addr.spec_eui_64() is Some <==> addr is Ethernet || (
        addr matches HardwareAddress::Ieee802154(a) && a is Extended),
        addr.spec_eui_64() matches Some(eui) ==> {
            &&& eui.len() == 8
            &&& eui[0] / 4 == addr@[0] / 4
            &&& eui[0] % 2 == addr@[0] % 2
            &&& eui[0] != addr@[0]
            &&& addr is Ethernet ==> eui.subrange(1, 3) == addr@.subrange(1, 3) && eui[3] == 0xff
                && eui[4] == 0xfe && eui.skip(5) == addr@.skip(3)
            &&& addr is Ieee802154 ==> eui.skip(1) == addr@.skip(1)
        },
{
    if let Some(eui) = addr.spec_eui_64() {
        if addr is Ethernet {
            assert(eui.subrange(1, 3) =~= addr@.subrange(1, 3));
            assert(eui.skip(5) =~= addr@.skip(3));
        } else {
            assert(eui.skip(1) =~= addr@.skip(1));
        }
    }
}

/// Where the digits of an octet are in the text of an address: the digits of the octets stand three
/// characters apart, the high half of an octet first, with a colon between two octets.
pub proof fn law_hex_text(octets: Seq<u8>, i: int)
    requires
        0 <= i < octets.len(),
    ensures
        ({
            let text = hex_text(octets);
            &&& text.len() == 3 * octets.len() - 1
            &&& text[3 * i] == hex_digit(octets[i] as int / 16)
            &&& text[3 * i + 1] == hex_digit(octets[i] as int % 16)
            &&& i + 1 < octets.len() ==> text[3 * i + 2] == 0x3a
        }),
    decreases octets.len(),
{
    let before = octets.drop_last();
    if octets.len() > 1 {
        if i < before.len() {
            law_hex_text(before, i);
        } else {
            law_hex_text(before, i - 1);
        }
    }
}

/// The digits are `0` to `9` and `a` to `f`.
pub proof fn law_hex_digit(n: int)
    ensures
        0 <= n < 10 ==> hex_digit(n) == 48 + n,
        10 <= n < 16 ==> hex_digit(n) == 87 + n,
{
}

} // verus!

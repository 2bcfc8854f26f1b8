//! Low-level packet access and construction.
//!
//! The `wire` module deals with the packet *representation*. It provides functions to extract
//! fields from sequences of octets, and to insert fields into sequences of octets. This
//! happens through the `Packet` family of structures, e.g. [`Ipv4Packet`].
//!
//! The `Packet` family of data structures guarantees that, if the `Packet::check_len()` method
//! returned `Ok(())`, then no accessor or setter method will panic: what `check_len` checks is
//! what they require. The guarantee may no longer hold after changing certain fields, which are
//! listed in the documentation for the specific packet.
//!
//! The `Packet::new_checked` method is a shorthand for a combination of `Packet::new_unchecked`
//! and `Packet::check_len`. When parsing untrusted input, it is *necessary* to use
//! `Packet::new_checked()`; so long as the buffer is not modified, no accessor will fail.

use vstd::prelude::*;

pub mod arp;
pub mod bits;
pub mod checksum;
pub mod ethernet;
pub mod hardware;
pub mod control4;
pub mod control6;
pub mod ieee802154;
pub mod ip;
pub mod ipv4;
pub mod ipv6;
pub mod prefix;
pub mod tcp;
pub mod udp;

pub use self::ethernet::{
    Address as EthernetAddress, EtherType as EthernetProtocol, HEADER_LEN as ETHERNET_HEADER_LEN,
};
pub use self::hardware::{HardwareAddress, RawHardwareAddress, MAX_HARDWARE_ADDRESS_LEN};
pub use self::ieee802154::Address as Ieee802154Address;
pub use self::ip::{
    Address as IpAddress, Cidr as IpCidr, Endpoint as IpEndpoint,
    ListenEndpoint as IpListenEndpoint, Protocol as IpProtocol, Version as IpVersion,
};
pub use self::ipv4::{
    Address as Ipv4Address, Cidr as Ipv4Cidr,
    FRAGMENT_PAYLOAD_ALIGNMENT as IPV4_FRAGMENT_PAYLOAD_ALIGNMENT, HEADER_LEN as IPV4_HEADER_LEN,
    MIN_MTU as IPV4_MIN_MTU, Packet as Ipv4Packet,
};
pub use self::ipv6::{
    Address as Ipv6Address, Cidr as Ipv6Cidr, HEADER_LEN as IPV6_HEADER_LEN,
    MIN_MTU as IPV6_MIN_MTU, MulticastScope as Ipv6MulticastScope, Packet as Ipv6Packet,
};
pub use self::tcp::{
    Control as TcpControl, HEADER_LEN as TCP_HEADER_LEN, Packet as TcpPacket,
    SeqNumber as TcpSeqNumber, TcpOption,
};

verus! {

/// Parsing a packet failed.
///
/// Either it is malformed, or it is not supported.
#[derive(Debug, Clone, Copy, PartialEq, Eq, Structural)]
pub struct Error;

/// The result of parsing a packet.
pub type Result<T, E = Error> = core::result::Result<T, E>;

/// Parsing a string failed.
#[derive(Debug, Clone, Copy, PartialEq, Eq, Structural)]
pub enum ParseError {
    /// Parsing an IP address failed.
    Addr,
    /// Parsing a port number failed.
    Port,
    /// Parsing a cidr prefix len failed.
    PrefixLen,
    /// The prefix len was too large.
    PrefixLenTooLarge,
    /// Parsing failed because the separator was not found in the input.
    MissingSeparator(char),
}

/// The headroom every egress packet reserves for the link-layer header below IP: the Ethernet
/// header, since an IP packet may end up going out of an Ethernet interface.
pub const LINK_HEADER_LEN: usize = 14;

/// Read `n` bytes at `*offset` and advance it. For parsers of headers whose layout depends on
/// their own fields.
pub fn take<'a>(buf: &'a [u8], offset: &mut usize, n: usize) -> (bytes: Result<&'a [u8]>)
    requires
        *old(offset) + n <= usize::MAX,
    ensures
        bytes is Ok <==> *old(offset) + n <= buf@.len(),
        bytes is Err ==> *final(offset) == *old(offset),
        bytes matches Ok(b) ==> {
            &&& b@ == buf@.subrange(*old(offset) as int, *old(offset) + n)
            &&& *final(offset) == *old(offset) + n
        },
{
    let start: usize = *offset;
    let end: usize = start + n;
    if end > buf.len() {
        return Err(Error);
    }
    *offset = end;
    Ok(&buf[start..end])
}

/// The position of the first `/` in the text of a CIDR block, which separates the address from
/// the prefix length.
pub fn cidr_separator(text: &[u8]) -> (position: core::result::Result<usize, ParseError>)
    ensures
        match position {
            Ok(i) => {
                &&& i < text@.len()
                &&& text@[i as int] == 0x2f
                &&& forall|j: int| 0 <= j < i ==> text@[j] != 0x2f
            },
            Err(error) => {
                &&& error == ParseError::MissingSeparator('/')
                &&& forall|j: int| 0 <= j < text@.len() ==> text@[j] != 0x2f
            },
        },
{
    let len: usize = text.len();
    let mut i: usize = 0;
    while i < len
        invariant
            i <= len,
            len == text@.len(),
            forall|j: int| 0 <= j < i ==> text@[j] != 0x2f,
        decreases len - i,
    {
        if text[i] == 0x2f {
            return Ok(i);
        }
        i = i + 1;
    }
    Err(ParseError::MissingSeparator('/'))
}

} // verus!

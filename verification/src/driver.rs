//! What a network device tells the stack about itself.

use vstd::prelude::*;

verus! {

/// The kind of link that a device drives.
#[derive(Debug, Clone, Copy, PartialEq, Eq, Structural)]
pub enum Medium {
    /// Frames are Ethernet frames.
    Ethernet,
    /// Frames are bare IP packets.
    Ip,
    /// Frames are IEEE 802.15.4 frames.
    Ieee802154,
}

/// The hardware address that a device reports.
#[derive(Debug, Clone, Copy)]
pub enum HardwareAddress {
    /// An Ethernet address.
    Ethernet([u8; 6]),
    /// No address.
    Ip,
    /// An extended IEEE 802.15.4 address.
    Ieee802154([u8; 8]),
}

/// The state of the link of a device.
#[derive(Debug, Clone, Copy, PartialEq, Eq, Structural)]
pub enum LinkState {
    /// No frames can be sent or received.
    Down,
    /// Frames can be sent and received.
    Up,
}

/// Whether a device handles a checksum itself.
#[derive(Debug, Clone, Copy, PartialEq, Eq, Structural)]
pub struct ChecksumOffload {
    /// The device verifies the checksum of received packets.
    pub rx: bool,
    /// The device computes the checksum of transmitted packets.
    pub tx: bool,
}

impl ChecksumOffload {
    /// The stack both verifies and computes the checksum.
    pub fn none() -> (offload: ChecksumOffload)
        ensures
            !offload.rx,
            !offload.tx,
    {
        ChecksumOffload { rx: false, tx: false }
    }

    /// The device both verifies and computes the checksum.
    pub fn both() -> (offload: ChecksumOffload)
        ensures
            offload.rx,
            offload.tx,
    {
        ChecksumOffload { rx: true, tx: true }
    }
}

impl Default for ChecksumOffload {
    fn default() -> (offload: ChecksumOffload)
        ensures
            !offload.rx,
            !offload.tx,
    {
        ChecksumOffload::none()
    }
}

/// Which checksums a device handles itself, so that the stack does not do it in software.
#[derive(Debug, Clone, Copy, PartialEq, Eq, Structural)]
pub struct ChecksumCapabilities {
    /// The IPv4 header checksum.
    pub ipv4: ChecksumOffload,
    /// The UDP checksum.
    pub udp: ChecksumOffload,
    /// The TCP checksum.
    pub tcp: ChecksumOffload,
    /// The ICMPv4 checksum.
    pub icmpv4: ChecksumOffload,
    /// The ICMPv6 checksum.
    pub icmpv6: ChecksumOffload,
}

impl ChecksumCapabilities {
    /// The capabilities with every checksum handled as `offload` says.
    pub open spec fn uniform(offload: ChecksumOffload) -> ChecksumCapabilities {
        ChecksumCapabilities {
            ipv4: offload,
            udp: offload,
            tcp: offload,
            icmpv4: offload,
            icmpv6: offload,
        }
    }

    /// The device handles every checksum.
    pub fn all_offloaded() -> (caps: ChecksumCapabilities)
        ensures
            caps == Self::uniform((ChecksumOffload { rx: true, tx: true })),
    {
        let both = ChecksumOffload::both();
        ChecksumCapabilities { ipv4: both, udp: both, tcp: both, icmpv4: both, icmpv6: both }
    }
}

impl Default for ChecksumCapabilities {
    fn default() -> (caps: ChecksumCapabilities)
        ensures
            caps == ChecksumCapabilities::uniform((ChecksumOffload { rx: false, tx: false })),
    {
        let none = ChecksumOffload::none();
        ChecksumCapabilities { ipv4: none, udp: none, tcp: none, icmpv4: none, icmpv6: none }
    }
}

} // verus!

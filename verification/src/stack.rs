//! The network stack.

use vstd::prelude::*;
use vstd::utf8::encode_utf8;

use crate::driver;
use crate::driver::{ChecksumCapabilities, LinkState, Medium};
use crate::hostname::{Hostname, HOSTNAME_MAX_LEN};
use crate::iface::{link_local_addr, IfaceHandle, IfaceState};
use crate::pending::{off_iface, PendingPacket, PendingQueue};
use crate::storage::{
    first_free, law_slab_add, lemma_first_free, occupied, slots_added, Full, Slab,
};
use crate::time::Instant;
use crate::wire::ip::{
    Address as IpAddress, Cidr as IpCidr, Endpoint as IpEndpoint,
    ListenEndpoint as IpListenEndpoint,
};
use crate::wire::{ipv6, HardwareAddress};

verus! {

/// The interface a socket is bound to, if any.
#[derive(Debug, Clone, Copy, PartialEq, Eq, Structural)]
pub enum IfaceBinding {
    /// Not bound: all interfaces.
    Any,
    /// Bound to one interface.
    Iface(IfaceHandle),
}

impl Default for IfaceBinding {
    fn default() -> (binding: IfaceBinding)
        ensures
            binding is Any,
    {
        IfaceBinding::Any
    }
}

impl IfaceBinding {
    /// Whether a packet on the interface passes the binding.
    pub open spec fn passes(self, arrival: IfaceHandle) -> bool {
        self matches IfaceBinding::Iface(bound) ==> bound == arrival
    }

    /// The bound interface, or `None`.
    pub fn iface(self) -> (iface: Option<IfaceHandle>)
        ensures
            iface == match self {
                IfaceBinding::Any => None,
                IfaceBinding::Iface(bound) => Some(bound),
            },
    {
        match self {
            IfaceBinding::Any => None,
            IfaceBinding::Iface(iface) => Some(iface),
        }
    }

    /// Whether a packet arriving on (or, in [`Stack::route`], leaving through) `arrival`
    /// passes the binding.
    pub fn matches(self, arrival: IfaceHandle) -> (r: bool)
        ensures
            r == self.passes(arrival),
    {
        self.match_score(arrival).is_some()
    }

    /// Score the binding against a packet's arrival interface, for demux.
    ///
    /// `None` if the binding excludes the interface, else how specific the binding is: bound
    /// outscores unbound, like the other exact tuple parts.
    pub fn match_score(self, arrival: IfaceHandle) -> (score: Option<u8>)
        ensures
            score == match self {
                IfaceBinding::Any => Some(0u8),
                IfaceBinding::Iface(bound) => if bound == arrival {
                    Some(1u8)
                } else {
                    None
                },
            },
    {
        match self.iface() {
            None => Some(0),
            Some(bound) => if bound == arrival {
                Some(1)
            } else {
                None
            },
        }
    }
}

impl From<Option<IfaceHandle>> for IfaceBinding {
    fn from(iface: Option<IfaceHandle>) -> (binding: IfaceBinding) {
        match iface {
            Some(iface) => IfaceBinding::Iface(iface),
            None => IfaceBinding::Any,
        }
    }
}

impl vstd::std_specs::convert::FromSpecImpl<Option<IfaceHandle>> for IfaceBinding {
    open spec fn obeys_from_spec() -> bool {
        true
    }

    open spec fn from_spec(iface: Option<IfaceHandle>) -> IfaceBinding {
        match iface {
            Some(iface) => IfaceBinding::Iface(iface),
            None => IfaceBinding::Any,
        }
    }
}

/// A complete egress routing decision for one destination, produced by [`Stack::route`]: the
/// interface the packet goes out of, the next hop to resolve on that link, and the
/// interface's IP MTU.
#[derive(Debug, Clone, Copy, PartialEq, Eq, Structural)]
pub struct EgressRoute {
    /// The interface that the packet leaves through.
    pub iface: IfaceHandle,
    /// The address to resolve on the link: the destination itself when on-link (or
    /// broadcast/multicast), else the gateway from the routing table.
    pub next_hop: IpAddress,
    /// The egress interface's IP-layer MTU.
    pub ip_mtu: usize,
}

/// The entry of the routing table that matches a destination.
#[derive(Debug, Clone, Copy, PartialEq, Eq, Structural)]
pub struct TableRoute {
    /// The interface that the gateway is on.
    pub iface: IfaceHandle,
    /// The gateway.
    pub via_router: IpAddress,
}

/// What [`addr_score`] returns.
pub open spec fn spec_addr_score(filter: IpListenEndpoint, addr: IpAddress) -> Option<u8> {
    match filter.addr {
        None => Some(0u8),
        Some(a) => if a.spec_is_unspecified() {
            if a.spec_version() == addr.spec_version() {
                Some(1u8)
            } else {
                None
            }
        } else if a == addr {
            Some(2u8)
        } else {
            None
        },
    }
}

/// Score `addr` against a bind's address filter, the way ingress demux ranks candidate
/// sockets: `None` if it does not match, else how specific the filter that matched it is. No
/// address matches anything (0), an unspecified one matches its own IP version (1), and a
/// concrete one matches only itself (2).
pub fn addr_score(filter: &IpListenEndpoint, addr: &IpAddress) -> (score: Option<u8>)
    ensures
        score == spec_addr_score(*filter, *addr),
{
    match filter.addr {
        None => Some(0),
        Some(a) => {
            if a.is_unspecified() {
                if a.version() == addr.version() {
                    Some(1)
                } else {
                    None
                }
            } else if a == *addr {
                Some(2)
            } else {
                None
            }
        },
    }
}

/// The bottom of the ephemeral (dynamic) local port range, per IANA. The range runs to the top
/// of the port space, 65535.
pub const EPHEMERAL_PORT_MIN: u16 = 49152;

/// The number of ephemeral ports.
pub const EPHEMERAL_PORT_COUNT: u32 = 16384;

/// The port that is probed after `i` others, starting from a random number.
pub open spec fn probed_port(random: u32, i: int) -> u16 {
    (EPHEMERAL_PORT_MIN + (random as int % EPHEMERAL_PORT_COUNT as int + i)
        % EPHEMERAL_PORT_COUNT as int) as u16
}

/// Allocate an ephemeral local port: start at a random point in the range, which the number
/// `random` selects, and linearly probe upward (wrapping) for the first port `in_use` doesn't
/// claim.
///
/// The random start makes local ports hard to predict for off-path attackers (RFC 6056 §3.3).
/// `None` is returned only when every port in the range is in use.
pub fn alloc_ephemeral_port(random: u32, in_use: impl Fn(u16) -> bool) -> (port: Option<u16>)
    requires
        forall|port: u16| in_use.requires((port,)),
    ensures
        port matches Some(p) ==> p >= EPHEMERAL_PORT_MIN && in_use.ensures((p,), false) && exists|
            i: int,
        |
            {
                &&& 0 <= i < EPHEMERAL_PORT_COUNT
                &&& p == #[trigger] probed_port(random, i)
                &&& forall|j: int|
                    0 <= j < i ==> in_use.ensures((#[trigger] probed_port(random, j),), true)
            },
        port is None ==> forall|p: u16| p >= EPHEMERAL_PORT_MIN ==> in_use.ensures((p,), true),
{
    let start: u32 = random % EPHEMERAL_PORT_COUNT;
    let mut i: u32 = 0;
    while i < EPHEMERAL_PORT_COUNT
        invariant
            i <= EPHEMERAL_PORT_COUNT,
            start == random % EPHEMERAL_PORT_COUNT,
            forall|port: u16| in_use.requires((port,)),
            forall|j: int| 0 <= j < i ==> in_use.ensures((#[trigger] probed_port(random, j),), true),
        decreases EPHEMERAL_PORT_COUNT - i,
    {
        let port: u16 = EPHEMERAL_PORT_MIN + ((start + i) % EPHEMERAL_PORT_COUNT) as u16;
        assert(port == probed_port(random, i as int));
        if !in_use(port) {
            return Some(port);
        }
        i = i + 1;
    }
    proof {
        assert forall|p: u16| p >= EPHEMERAL_PORT_MIN implies in_use.ensures((p,), true) by {
            let offset = p - EPHEMERAL_PORT_MIN;
            let j = if offset >= start {
                offset - start
            } else {
                offset - start + EPHEMERAL_PORT_COUNT
            };
            assert(probed_port(random, j) == p);
        }
    }
    None
}

/// A handle to a UDP socket.
#[derive(Debug, Clone, Copy, PartialEq, Eq, Structural, Hash)]
pub struct UdpHandle {
    /// The slot of the socket.
    pub index: usize,
}

/// A handle to a raw socket.
#[derive(Debug, Clone, Copy, PartialEq, Eq, Structural, Hash)]
pub struct RawHandle {
    /// The slot of the socket.
    pub index: usize,
}

/// A handle to a TCP socket.
#[derive(Debug, Clone, Copy, PartialEq, Eq, Structural, Hash)]
pub struct TcpHandle {
    /// The slot of the socket.
    pub index: usize,
}

/// A handle to a TCP listener.
#[derive(Debug, Clone, Copy, PartialEq, Eq, Structural, Hash)]
pub struct TcpListenerHandle {
    /// The slot of the listener.
    pub index: usize,
}

/// A UDP socket.
#[derive(Debug, Clone, Copy, PartialEq, Eq, Structural)]
pub struct UdpSocketState {
    /// The interface that the socket is bound to.
    pub binding: IfaceBinding,
}

/// A raw socket.
#[derive(Debug, Clone, Copy, PartialEq, Eq, Structural)]
pub struct RawSocketState {
    /// The interface that the socket is bound to.
    pub binding: IfaceBinding,
}

/// The two ends of a TCP connection.
#[derive(Debug, Clone, Copy, PartialEq, Eq, Structural)]
pub struct Tuple {
    /// The end of this host.
    pub local: IpEndpoint,
    /// The other end.
    pub remote: IpEndpoint,
}

/// A TCP socket.
pub struct TcpSocketState {
    /// The interface that the socket is bound to.
    pub binding: IfaceBinding,
    /// The connection of the socket, if it has one.
    pub tuple: Option<Tuple>,
    /// What was received and not read yet.
    pub rx_buffer: Vec<u8>,
    /// What was written and not acknowledged yet.
    pub tx_buffer: Vec<u8>,
}

/// A TCP listener.
#[derive(Debug, Clone, Copy, PartialEq, Eq, Structural)]
pub struct TcpListenerState {
    /// The interface that the listener is bound to.
    pub binding: IfaceBinding,
}

/// The stack's socket storage, one slab per socket type.
pub struct Sockets {
    /// The UDP sockets.
    pub udp: Slab<UdpSocketState>,
    /// The raw sockets.
    pub raw: Slab<RawSocketState>,
    /// The TCP sockets.
    pub tcp: Slab<TcpSocketState>,
    /// The TCP listeners.
    pub tcp_listeners: Slab<TcpListenerState>,
}

/// What a device says about itself when it is added.
#[derive(Debug, Clone, Copy)]
pub struct Capabilities {
    /// The kind of link.
    pub medium: Medium,
    /// The largest IP packet that fits in a frame.
    pub ip_mtu: usize,
    /// Which checksums the device handles.
    pub checksum: ChecksumCapabilities,
}

/// A network stack.
pub struct Stack {
    /// The current time, as last set by polling.
    pub now: Instant,
    /// Set when a socket send failed for lack of a packet buffer or device room.
    pub tx_starved: bool,
    /// The name of the host.
    pub hostname: Hostname,
    /// The interfaces.
    pub ifaces: Slab<IfaceState>,
    /// The sockets.
    pub sockets: Sockets,
    /// The packets that wait for a neighbor.
    pub pending: PendingQueue,
}

/// The largest receive buffer of a TCP socket: 1 GiB.
pub const TCP_RX_BUFFER_MAX: usize = 0x4000_0000;

/// Whether every interface knows the slot that it is in, and has a hardware address of the kind
/// that its medium uses.
pub open spec fn ifaces_ok(slots: Seq<Option<IfaceState>>) -> bool {
    forall|i: int| #[trigger]
        occupied(slots, i) ==> slots[i]->0.handle.index == i
            && slots[i]->0.hardware_addr.spec_medium() == slots[i]->0.medium
}

impl Stack {
    /// Every interface knows the slot that it is in, and has a hardware address of the kind
    /// that its medium uses.
    pub open spec fn wf(self) -> bool {
        ifaces_ok(self.ifaces@)
    }

    /// Whether the handle names an interface.
    pub open spec fn live(self, handle: IfaceHandle) -> bool {
        occupied(self.ifaces@, handle.index as int)
    }

    /// The interface of a handle.
    pub open spec fn spec_iface(self, handle: IfaceHandle) -> IfaceState {
        self.ifaces@[handle.index as int]->0
    }

    /// Create a network stack.
    pub fn new() -> (stack: Stack)
        ensures
            stack.wf(),
            stack.now.micros == 0,
            !stack.tx_starved,
            stack.hostname@ == Seq::<char>::empty(),
            stack.ifaces@ == Seq::<Option<IfaceState>>::empty(),
            stack.sockets.udp@ == Seq::<Option<UdpSocketState>>::empty(),
            stack.sockets.raw@ == Seq::<Option<RawSocketState>>::empty(),
            stack.sockets.tcp@ == Seq::<Option<TcpSocketState>>::empty(),
            stack.sockets.tcp_listeners@ == Seq::<Option<TcpListenerState>>::empty(),
            stack.pending@ == Seq::<PendingPacket>::empty(),
    {
        Stack {
            now: Instant::zero(),
            tx_starved: false,
            hostname: Hostname::new(),
            ifaces: Slab::new(),
            sockets: Sockets {
                udp: Slab::new(),
                raw: Slab::new(),
                tcp: Slab::new(),
                tcp_listeners: Slab::new(),
            },
            pending: PendingQueue::new(),
        }
    }

    /// The stack's hostname, or `None` if not set.
    pub fn hostname(&self) -> (name: Option<&str>)
        ensures
            name is Some <==> self.hostname@.len() > 0,
            name matches Some(text) ==> text@ == self.hostname@,
    {
        self.hostname.get()
    }

    /// Set the stack's hostname, of at most 63 bytes.
    ///
    /// If set, it is sent to the DHCP server in outgoing DHCP messages, as the host name
    /// option. An empty string clears the hostname.
    pub fn set_hostname(&mut self, hostname: &str)
        requires
            encode_utf8(hostname@).len() <= HOSTNAME_MAX_LEN,
        ensures
            final(self).hostname@ == hostname@,
            *final(self) == (Stack { hostname: final(self).hostname, ..*old(self) }),
    {
        self.hostname.set(hostname);
    }

    /// Note that a socket send was held back for lack of a packet buffer or device room, so
    /// that the packet sockets are woken by the next poll.
    pub fn set_tx_starved(&mut self)
        ensures
            *final(self) == (Stack { tx_starved: true, ..*old(self) }),
    {
        self.tx_starved = true;
    }

    /// Take the note that sends were held back, and clear it.
    pub fn take_tx_starved(&mut self) -> (starved: bool)
        ensures
            starved == old(self).tx_starved,
            *final(self) == (Stack { tx_starved: false, ..*old(self) }),
    {
        let starved = self.tx_starved;
        self.tx_starved = false;
        starved
    }

    /// Add an interface to the stack, returning a handle to it. The hardware address that the
    /// device reports is of the kind that its medium uses.
    ///
    /// An interface with a hardware address that makes an interface identifier is given its
    /// link-local address, and joins the solicited-node group of it. The link counts as down
    /// until it is looked at.
    pub fn add_iface(&mut self, caps: Capabilities, reported: driver::HardwareAddress) -> (handle:
        core::result::Result<IfaceHandle, Full>)
        requires
            old(self).wf(),
            HardwareAddress::spec_from_driver(reported) matches Some(addr) && addr.spec_medium()
                == caps.medium,
        ensures
            final(self).wf(),
            *final(self) == (Stack { ifaces: final(self).ifaces, ..*old(self) }),
            handle is Err <==> first_free(old(self).ifaces@, 0) == usize::MAX,
            handle is Err ==> final(self).ifaces@ == old(self).ifaces@,
            handle matches Ok(h) ==> {
                &&& h.index == first_free(old(self).ifaces@, 0)
                &&& final(self).live(h)
                &&& final(self).ifaces@ == slots_added(
                    old(self).ifaces@,
                    final(self).spec_iface(h),
                )
                &&& HardwareAddress::spec_from_driver(reported) matches Some(addr) && new_iface(
                    final(self).spec_iface(h),
                    h,
                    caps,
                    addr,
                )
            },
    {
        let hardware_addr = match HardwareAddress::from_driver(reported) {
            Some(addr) => addr,
            None => vstd::pervasive::unreached(),
        };
        let index: usize = self.ifaces.vacant();
        let handle = IfaceHandle::new(index);
        let state = new_iface_state(handle, caps, hardware_addr);
        proof {
            lemma_first_free(self.ifaces@, 0);
        }
        let ghost before = self.ifaces@;
        match self.ifaces.add(state) {
            Ok(index) => {
                proof {
                    assert forall|i: int| #[trigger] occupied(self.ifaces@, i) implies self.ifaces@[i]->0.handle.index
                        == i && self.ifaces@[i]->0.hardware_addr.spec_medium()
                        == self.ifaces@[i]->0.medium by {
                        law_slab_add(before, state, i);
                        if i != index {
                            assert(occupied(before, i));
                        }
                    }
                    law_slab_add(before, state, index as int);
                }
                Ok(IfaceHandle::new(index))
            },
            Err(full) => Err(full),
        }
    }

    /// Borrow an interface from the stack.
    pub fn iface(&mut self, handle: IfaceHandle) -> (iface: &mut IfaceState)
        requires
            old(self).live(handle),
        ensures
            *iface == old(self).spec_iface(handle),
            final(self).ifaces@ == old(self).ifaces@.update(
                handle.index as int,
                Some(*final(iface)),
            ),
            *final(self) == (Stack { ifaces: final(self).ifaces, ..*old(self) }),
    {
        self.ifaces.get_mut(handle.index)
    }

    /// Remove an interface from the stack, and forget the packets that wait for a neighbor on
    /// it.
    pub fn remove_iface(&mut self, handle: IfaceHandle)
        requires
            old(self).wf(),
            old(self).live(handle),
        ensures
            final(self).wf(),
            final(self).ifaces@ == old(self).ifaces@.update(handle.index as int, None),
            final(self).pending@ == off_iface(old(self).pending@, handle),
            *final(self) == (Stack {
                ifaces: final(self).ifaces,
                pending: final(self).pending,
                ..*old(self)
            }),
    {
        let _iface = self.ifaces.remove(handle.index);
        self.pending.purge_iface(handle);
        proof {
            assert forall|i: int| #[trigger] occupied(self.ifaces@, i) implies self.ifaces@[i]->0.handle.index
                == i && self.ifaces@[i]->0.hardware_addr.spec_medium()
                == self.ifaces@[i]->0.medium by {
                assert(occupied(old(self).ifaces@, i));
            }
        }
    }

    /// Forget the packets that wait for a neighbor on an interface, after a change of its
    /// addresses.
    pub fn purge_iface_link_state(&mut self, handle: IfaceHandle)
        ensures
            final(self).pending@ == off_iface(old(self).pending@, handle),
            *final(self) == (Stack { pending: final(self).pending, ..*old(self) }),
    {
        self.pending.purge_iface(handle);
    }

    /// The slots of the interfaces added to the stack, in order.
    pub fn ifaces(&self) -> (slots: Vec<usize>)
        ensures
            forall|i: int| 0 <= i < slots@.len() ==> occupied(self.ifaces@, slots@[i] as int),
            forall|i: int, j: int| 0 <= i < j < slots@.len() ==> slots@[i] < slots@[j],
            forall|k: int| occupied(self.ifaces@, k) ==> slots@.contains(k as usize),
    {
        self.ifaces.indices()
    }
}

/// The state of a new interface.
fn new_iface_state(
    handle: IfaceHandle,
    caps: Capabilities,
    hardware_addr: HardwareAddress,
) -> (state: IfaceState)
    ensures
        new_iface(state, handle, caps, hardware_addr),
{
    let mut ip_addrs: Vec<IpCidr> = Vec::new();
    let mut multicast_groups: Vec<IpAddress> = Vec::new();
    if let Some(cidr) = link_local_addr(hardware_addr) {
        ip_addrs.push(cidr);
        if let IpCidr::Ipv6(c) = cidr {
            let group = IpAddress::Ipv6(c.address().solicited_node());
            multicast_groups.push(group);
            assert(multicast_groups@ =~= seq![group]);
        }
    }
    IfaceState {
        handle,
        medium: caps.medium,
        hardware_addr,
        ip_addrs,
        multicast_groups,
        ip_mtu: caps.ip_mtu,
        checksum: caps.checksum,
        last_link_state: LinkState::Down,
    }
}

/// What a new interface is: it has the capabilities and the address that the device reports,
/// and its link-local address if it has an interface identifier.
pub open spec fn new_iface(
    iface: IfaceState,
    handle: IfaceHandle,
    caps: Capabilities,
    hardware_addr: HardwareAddress,
) -> bool {
    &&& iface.handle == handle
    &&& iface.medium == caps.medium
    &&& iface.hardware_addr == hardware_addr
    &&& iface.ip_mtu == caps.ip_mtu
    &&& iface.checksum == caps.checksum
    &&& iface.last_link_state == LinkState::Down
    &&& match hardware_addr.spec_eui_64() {
        None => iface.ip_addrs@.len() == 0 && iface.multicast_groups@.len() == 0,
        Some(eui) => {
            &&& iface.ip_addrs@.len() == 1
            &&& iface.ip_addrs@[0] matches IpCidr::Ipv6(c) && c.spec_prefix_len() == 64
                && c.spec_address().spec_is_unicast() && crate::endian::octets128(
                c.spec_address().bits as int,
            ) == seq![0xfeu8, 0x80, 0, 0, 0, 0, 0, 0] + eui && iface.multicast_groups@ == seq![
                IpAddress::Ipv6(c.spec_address().spec_solicited_node()),
            ]
        },
    }
}

impl Stack {
    /// Add a UDP socket to the stack, returning a handle to it.
    pub fn add_udp_socket(&mut self) -> (handle: core::result::Result<UdpHandle, Full>)
        ensures
            *final(self) == (Stack {
                sockets: Sockets { udp: final(self).sockets.udp, ..old(self).sockets },
                ..*old(self)
            }),
            handle is Err <==> first_free(old(self).sockets.udp@, 0) == usize::MAX,
            handle is Err ==> final(self).sockets.udp@ == old(self).sockets.udp@,
            handle matches Ok(h) ==> {
                &&& h.index == first_free(old(self).sockets.udp@, 0)
                &&& final(self).sockets.udp@[h.index as int] matches Some(added)
                &&& added.binding is Any
                &&& final(self).sockets.udp@ == slots_added(old(self).sockets.udp@, added)
            },
    {
        let added = UdpSocketState { binding: IfaceBinding::Any };
        proof {
            law_slab_add(self.sockets.udp@, added, 0);
        }
        match self.sockets.udp.add(added) {
            Ok(index) => Ok(UdpHandle { index }),
            Err(full) => Err(full),
        }
    }

    /// Remove a UDP socket from the stack.
    pub fn remove_udp_socket(&mut self, handle: UdpHandle)
        requires
            occupied(old(self).sockets.udp@, handle.index as int),
        ensures
            final(self).sockets.udp@ == old(self).sockets.udp@.update(
                handle.index as int,
                None,
            ),
            *final(self) == (Stack {
                sockets: Sockets { udp: final(self).sockets.udp, ..old(self).sockets },
                ..*old(self)
            }),
    {
        let _socket = self.sockets.udp.remove(handle.index);
    }

    /// Borrow a UDP socket from the stack.
    pub fn udp_socket(&mut self, handle: UdpHandle) -> (socket: &mut UdpSocketState)
        requires
            occupied(old(self).sockets.udp@, handle.index as int),
        ensures
            old(self).sockets.udp@[handle.index as int] == Some(*socket),
            final(self).sockets.udp@ == old(self).sockets.udp@.update(
                handle.index as int,
                Some(*final(socket)),
            ),
            *final(self) == (Stack {
                sockets: Sockets { udp: final(self).sockets.udp, ..old(self).sockets },
                ..*old(self)
            }),
    {
        self.sockets.udp.get_mut(handle.index)
    }

    /// The slots of the UDP sockets added to the stack, in order.
    pub fn udp_sockets(&self) -> (slots: Vec<usize>)
        ensures
            forall|i: int| 0 <= i < slots@.len() ==> occupied(self.sockets.udp@, slots@[i] as int),
            forall|i: int, j: int| 0 <= i < j < slots@.len() ==> slots@[i] < slots@[j],
            forall|k: int| occupied(self.sockets.udp@, k) ==> slots@.contains(k as usize),
    {
        self.sockets.udp.indices()
    }

    /// Add a raw socket to the stack, returning a handle to it.
    pub fn add_raw_socket(&mut self) -> (handle: core::result::Result<RawHandle, Full>)
        ensures
            *final(self) == (Stack {
                sockets: Sockets { raw: final(self).sockets.raw, ..old(self).sockets },
                ..*old(self)
            }),
            handle is Err <==> first_free(old(self).sockets.raw@, 0) == usize::MAX,
            handle is Err ==> final(self).sockets.raw@ == old(self).sockets.raw@,
            handle matches Ok(h) ==> {
                &&& h.index == first_free(old(self).sockets.raw@, 0)
                &&& final(self).sockets.raw@[h.index as int] matches Some(added)
                &&& added.binding is Any
                &&& final(self).sockets.raw@ == slots_added(old(self).sockets.raw@, added)
            },
    {
        let added = RawSocketState { binding: IfaceBinding::Any };
        proof {
            law_slab_add(self.sockets.raw@, added, 0);
        }
        match self.sockets.raw.add(added) {
            Ok(index) => Ok(RawHandle { index }),
            Err(full) => Err(full),
        }
    }

    /// Remove a raw socket from the stack.
    pub fn remove_raw_socket(&mut self, handle: RawHandle)
        requires
            occupied(old(self).sockets.raw@, handle.index as int),
        ensures
            final(self).sockets.raw@ == old(self).sockets.raw@.update(
                handle.index as int,
                None,
            ),
            *final(self) == (Stack {
                sockets: Sockets { raw: final(self).sockets.raw, ..old(self).sockets },
                ..*old(self)
            }),
    {
        let _socket = self.sockets.raw.remove(handle.index);
    }

    /// Borrow a raw socket from the stack.
    pub fn raw_socket(&mut self, handle: RawHandle) -> (socket: &mut RawSocketState)
        requires
            occupied(old(self).sockets.raw@, handle.index as int),
        ensures
            old(self).sockets.raw@[handle.index as int] == Some(*socket),
            final(self).sockets.raw@ == old(self).sockets.raw@.update(
                handle.index as int,
                Some(*final(socket)),
            ),
            *final(self) == (Stack {
                sockets: Sockets { raw: final(self).sockets.raw, ..old(self).sockets },
                ..*old(self)
            }),
    {
        self.sockets.raw.get_mut(handle.index)
    }

    /// The slots of the raw sockets added to the stack, in order.
    pub fn raw_sockets(&self) -> (slots: Vec<usize>)
        ensures
            forall|i: int| 0 <= i < slots@.len() ==> occupied(self.sockets.raw@, slots@[i] as int),
            forall|i: int, j: int| 0 <= i < j < slots@.len() ==> slots@[i] < slots@[j],
            forall|k: int| occupied(self.sockets.raw@, k) ==> slots@.contains(k as usize),
    {
        self.sockets.raw.indices()
    }

    /// Add a TCP socket to the stack, returning a handle to it.
    ///
    /// The buffers have the given capacities; that of the receive buffer is at most 1 GiB.
    pub fn add_tcp_socket(
        &mut self,
        rx_capacity: usize,
        tx_capacity: usize,
    ) -> (handle: core::result::Result<TcpHandle, Full>)
        requires
            rx_capacity <= TCP_RX_BUFFER_MAX,
        ensures
            *final(self) == (Stack {
                sockets: Sockets { tcp: final(self).sockets.tcp, ..old(self).sockets },
                ..*old(self)
            }),
            handle is Err <==> first_free(old(self).sockets.tcp@, 0) == usize::MAX,
            handle is Err ==> final(self).sockets.tcp@ == old(self).sockets.tcp@,
            handle matches Ok(h) ==> {
                &&& h.index == first_free(old(self).sockets.tcp@, 0)
                &&& final(self).sockets.tcp@[h.index as int] matches Some(added)
                &&& added.binding is Any
                &&& added.tuple is None
                &&& added.rx_buffer@ == Seq::new(rx_capacity as nat, |i: int| 0u8)
                &&& added.tx_buffer@ == Seq::new(tx_capacity as nat, |i: int| 0u8)
                &&& final(self).sockets.tcp@ == slots_added(old(self).sockets.tcp@, added)
            },
    {
        let added = TcpSocketState {
            binding: IfaceBinding::Any,
            tuple: None,
            rx_buffer: vec![0u8; rx_capacity],
            tx_buffer: vec![0u8; tx_capacity],
        };
        proof {
            assert(added.rx_buffer@ =~= Seq::new(rx_capacity as nat, |i: int| 0u8));
            assert(added.tx_buffer@ =~= Seq::new(tx_capacity as nat, |i: int| 0u8));
            law_slab_add(self.sockets.tcp@, added, 0);
        }
        match self.sockets.tcp.add(added) {
            Ok(index) => Ok(TcpHandle { index }),
            Err(full) => Err(full),
        }
    }

    /// Add a TCP socket to the stack, returning a handle to it.
    ///
    /// The socket uses the given buffers; the receive buffer is at most 1 GiB long.
    pub fn add_tcp_socket_with_bufs(
        &mut self,
        rx_buffer: Vec<u8>,
        tx_buffer: Vec<u8>,
    ) -> (handle: core::result::Result<TcpHandle, Full>)
        requires
            rx_buffer@.len() <= TCP_RX_BUFFER_MAX,
        ensures
            *final(self) == (Stack {
                sockets: Sockets { tcp: final(self).sockets.tcp, ..old(self).sockets },
                ..*old(self)
            }),
            handle is Err <==> first_free(old(self).sockets.tcp@, 0) == usize::MAX,
            handle is Err ==> final(self).sockets.tcp@ == old(self).sockets.tcp@,
            handle matches Ok(h) ==> {
                &&& h.index == first_free(old(self).sockets.tcp@, 0)
                &&& final(self).sockets.tcp@[h.index as int] matches Some(added)
                &&& added.binding is Any
                &&& added.tuple is None
                &&& added.rx_buffer == rx_buffer
                &&& added.tx_buffer == tx_buffer
                &&& final(self).sockets.tcp@ == slots_added(old(self).sockets.tcp@, added)
            },
    {
        let added = TcpSocketState { binding: IfaceBinding::Any, tuple: None, rx_buffer, tx_buffer };
        proof {
            law_slab_add(self.sockets.tcp@, added, 0);
        }
        match self.sockets.tcp.add(added) {
            Ok(index) => Ok(TcpHandle { index }),
            Err(full) => Err(full),
        }
    }

    /// Remove a TCP socket from the stack.
    pub fn remove_tcp_socket(&mut self, handle: TcpHandle)
        requires
            occupied(old(self).sockets.tcp@, handle.index as int),
        ensures
            final(self).sockets.tcp@ == old(self).sockets.tcp@.update(
                handle.index as int,
                None,
            ),
            *final(self) == (Stack {
                sockets: Sockets { tcp: final(self).sockets.tcp, ..old(self).sockets },
                ..*old(self)
            }),
    {
        let _socket = self.sockets.tcp.remove(handle.index);
    }

    /// Borrow a TCP socket from the stack.
    pub fn tcp_socket(&mut self, handle: TcpHandle) -> (socket: &mut TcpSocketState)
        requires
            occupied(old(self).sockets.tcp@, handle.index as int),
        ensures
            old(self).sockets.tcp@[handle.index as int] == Some(*socket),
            final(self).sockets.tcp@ == old(self).sockets.tcp@.update(
                handle.index as int,
                Some(*final(socket)),
            ),
            *final(self) == (Stack {
                sockets: Sockets { tcp: final(self).sockets.tcp, ..old(self).sockets },
                ..*old(self)
            }),
    {
        self.sockets.tcp.get_mut(handle.index)
    }

    /// The slots of the TCP sockets added to the stack, in order.
    pub fn tcp_sockets(&self) -> (slots: Vec<usize>)
        ensures
            forall|i: int| 0 <= i < slots@.len() ==> occupied(self.sockets.tcp@, slots@[i] as int),
            forall|i: int, j: int| 0 <= i < j < slots@.len() ==> slots@[i] < slots@[j],
            forall|k: int| occupied(self.sockets.tcp@, k) ==> slots@.contains(k as usize),
    {
        self.sockets.tcp.indices()
    }

    /// Add a TCP listener to the stack, returning a handle to it.
    pub fn add_tcp_listener(&mut self) -> (handle: core::result::Result<TcpListenerHandle, Full>)
        ensures
            *final(self) == (Stack {
                sockets: Sockets {
                    tcp_listeners: final(self).sockets.tcp_listeners,
                    ..old(self).sockets
                },
                ..*old(self)
            }),
            handle is Err <==> first_free(old(self).sockets.tcp_listeners@, 0) == usize::MAX,
            handle is Err ==> final(self).sockets.tcp_listeners@ == old(
                self,
            ).sockets.tcp_listeners@,
            handle matches Ok(h) ==> {
                &&& h.index == first_free(old(self).sockets.tcp_listeners@, 0)
                &&& final(self).sockets.tcp_listeners@[h.index as int] matches Some(added)
                &&& added.binding is Any
                &&& final(self).sockets.tcp_listeners@ == slots_added(old(self).sockets.tcp_listeners@, added)
            },
    {
        let added = TcpListenerState { binding: IfaceBinding::Any };
        proof {
            law_slab_add(self.sockets.tcp_listeners@, added, 0);
        }
        match self.sockets.tcp_listeners.add(added) {
            Ok(index) => Ok(TcpListenerHandle { index }),
            Err(full) => Err(full),
        }
    }

    /// Remove a TCP listener from the stack.
    pub fn remove_tcp_listener(&mut self, handle: TcpListenerHandle)
        requires
            occupied(old(self).sockets.tcp_listeners@, handle.index as int),
        ensures
            final(self).sockets.tcp_listeners@ == old(self).sockets.tcp_listeners@.update(
                handle.index as int,
                None,
            ),
            *final(self) == (Stack {
                sockets: Sockets {
                    tcp_listeners: final(self).sockets.tcp_listeners,
                    ..old(self).sockets
                },
                ..*old(self)
            }),
    {
        let _socket = self.sockets.tcp_listeners.remove(handle.index);
    }

    /// Borrow a TCP listener from the stack.
    pub fn tcp_listener(&mut self, handle: TcpListenerHandle) -> (socket: &mut TcpListenerState)
        requires
            occupied(old(self).sockets.tcp_listeners@, handle.index as int),
        ensures
            old(self).sockets.tcp_listeners@[handle.index as int] == Some(*socket),
            final(self).sockets.tcp_listeners@ == old(self).sockets.tcp_listeners@.update(
                handle.index as int,
                Some(*final(socket)),
            ),
            *final(self) == (Stack {
                sockets: Sockets {
                    tcp_listeners: final(self).sockets.tcp_listeners,
                    ..old(self).sockets
                },
                ..*old(self)
            }),
    {
        self.sockets.tcp_listeners.get_mut(handle.index)
    }

    /// The slots of the TCP listeners added to the stack, in order.
    pub fn tcp_listeners(&self) -> (slots: Vec<usize>)
        ensures
            forall|i: int|
                0 <= i < slots@.len() ==> occupied(
                    self.sockets.tcp_listeners@,
                    slots@[i] as int,
                ),
            forall|i: int, j: int| 0 <= i < j < slots@.len() ==> slots@[i] < slots@[j],
            forall|k: int| occupied(self.sockets.tcp_listeners@, k) ==> slots@.contains(k as usize),
    {
        self.sockets.tcp_listeners.indices()
    }

}

/// The first interface from slot `from` on that passes the binding and that `wanted` holds of.
pub open spec fn first_iface(
    slots: Seq<Option<IfaceState>>,
    from: int,
    binding: IfaceBinding,
    wanted: spec_fn(IfaceState) -> bool,
) -> Option<int>
    decreases slots.len() - from,
{
    if from < 0 || from >= slots.len() {
        None
    } else if slots[from] is Some && binding.passes(slots[from]->0.handle) && wanted(
        slots[from]->0,
    ) {
        Some(from)
    } else {
        first_iface(slots, from + 1, binding, wanted)
    }
}

/// The route straight out of an interface: the next hop is the destination itself.
pub open spec fn direct(iface: IfaceState, dst_addr: IpAddress) -> EgressRoute {
    EgressRoute { iface: iface.handle, next_hop: dst_addr, ip_mtu: iface.ip_mtu }
}

/// The egress routing decision for a destination, where `table` is the entry of the routing
/// table for it.
pub open spec fn route_of(
    slots: Seq<Option<IfaceState>>,
    binding: IfaceBinding,
    dst_addr: IpAddress,
    table: Option<TableRoute>,
) -> Option<EgressRoute> {
    if !dst_addr.spec_is_unicast() {
        match first_iface(slots, 0, binding, |f: IfaceState| true) {
            Some(i) => Some(direct(slots[i]->0, dst_addr)),
            None => None,
        }
    } else {
        match first_iface(slots, 0, binding, |f: IfaceState| f.spec_in_same_network(dst_addr)) {
            Some(i) => Some(direct(slots[i]->0, dst_addr)),
            None => match table {
                Some(route) => Some(
                    EgressRoute {
                        iface: route.iface,
                        next_hop: route.via_router,
                        ip_mtu: slots[route.iface.index as int]->0.ip_mtu,
                    },
                ),
                None => None,
            },
        }
    }
}

/// The egress routing decision for a reply to a packet that arrived on an interface.
pub open spec fn reply_route_of(
    slots: Seq<Option<IfaceState>>,
    arrival: IfaceHandle,
    dst_addr: IpAddress,
    table: Option<TableRoute>,
) -> Option<EgressRoute> {
    if dst_addr matches IpAddress::Ipv6(dst) && dst.spec_is_link_local() {
        Some(
            EgressRoute {
                iface: arrival,
                next_hop: dst_addr,
                ip_mtu: slots[arrival.index as int]->0.ip_mtu,
            },
        )
    } else {
        route_of(slots, IfaceBinding::Any, dst_addr, table)
    }
}

impl Stack {
    /// Check whether any interface has the given IP address assigned.
    pub fn has_ip_addr(&self, addr: IpAddress) -> (r: bool)
        ensures
            r == exists|i: int|
                #[trigger] occupied(self.ifaces@, i) && self.ifaces@[i]->0.spec_has_ip_addr(addr),
    {
        let count: usize = self.ifaces.slot_count();
        let mut index: usize = 0;
        while index < count
            invariant
                index <= count,
                count == self.ifaces@.len(),
                forall|i: int|
                    0 <= i < index && #[trigger] occupied(self.ifaces@, i)
                        ==> !self.ifaces@[i]->0.spec_has_ip_addr(addr),
            decreases count - index,
        {
            if self.ifaces.contains(index) && self.ifaces.get(index).has_ip_addr(addr) {
                assert(occupied(self.ifaces@, index as int));
                return true;
            }
            index = index + 1;
        }
        false
    }

    /// The first interface that a packet may leave through: that passes the binding and, if
    /// a destination is given, is on-link for it.
    fn candidate(&self, binding: IfaceBinding, on_link: Option<&IpAddress>) -> (index: Option<usize>)
        ensures
            match index {
                Some(i) => {
                    &&& first_iface(self.ifaces@, 0, binding, wants(on_link)) == Some(i as int)
                    &&& occupied(self.ifaces@, i as int)
                },
                None => first_iface(self.ifaces@, 0, binding, wants(on_link)) is None,
            },
    {
        let count: usize = self.ifaces.slot_count();
        let mut index: usize = 0;
        while index < count
            invariant
                index <= count,
                count == self.ifaces@.len(),
                first_iface(self.ifaces@, 0, binding, wants(on_link)) == first_iface(
                    self.ifaces@,
                    index as int,
                    binding,
                    wants(on_link),
                ),
            decreases count - index,
        {
            if self.ifaces.contains(index) {
                let iface = self.ifaces.get(index);
                let wanted = match on_link {
                    Some(dst_addr) => iface.in_same_network(dst_addr),
                    None => true,
                };
                if binding.matches(iface.handle) && wanted {
                    return Some(index);
                }
            }
            index = index + 1;
        }
        None
    }

    /// Make the egress routing decision for a destination: the interface the destination is
    /// on-link for (next hop: the destination itself), else the interface and gateway named by
    /// the matching route, which is `table`.
    ///
    /// A bound socket (`binding`) routes only through its interface: the destination must be
    /// on-link for it or have a route through it, and broadcast/multicast destinations go
    /// straight out of it. A binding whose interface was removed routes nothing.
    pub fn route(
        &self,
        binding: IfaceBinding,
        dst_addr: &IpAddress,
        table: Option<TableRoute>,
    ) -> (route: Option<EgressRoute>)
        requires
            table matches Some(t) ==> self.live(t.iface),
        ensures
            route == route_of(self.ifaces@, binding, *dst_addr, table),
    {
        proof {
            lemma_wants(self.ifaces@, 0, binding, *dst_addr);
        }
        if !dst_addr.is_unicast() {
            return match self.candidate(binding, None) {
                Some(index) => {
                    let iface = self.ifaces.get(index);
                    Some(
                        EgressRoute {
                            iface: iface.handle,
                            next_hop: *dst_addr,
                            ip_mtu: iface.ip_mtu,
                        },
                    )
                },
                None => None,
            };
        }
        match self.candidate(binding, Some(dst_addr)) {
            Some(index) => {
                let iface = self.ifaces.get(index);
                Some(
                    EgressRoute { iface: iface.handle, next_hop: *dst_addr, ip_mtu: iface.ip_mtu },
                )
            },
            None => match table {
                Some(route) => Some(
                    EgressRoute {
                        iface: route.iface,
                        next_hop: route.via_router,
                        ip_mtu: self.ifaces.get(route.iface.index).ip_mtu,
                    },
                ),
                None => None,
            },
        }
    }

    /// [`route`](Stack::route) for a locally-generated reply to an ingress packet that arrived
    /// on `arrival`, with the checksums that its egress interface computes.
    ///
    /// Replies are routed like any other egress, so a reply may leave a different interface
    /// than the packet came in on (asymmetric routing). The exception is an IPv6 link-local
    /// destination: it is meaningful only on the link the packet came from, so it goes back
    /// out the arrival interface, with the destination itself as the next hop.
    pub fn route_reply(
        &self,
        arrival: IfaceHandle,
        dst_addr: &IpAddress,
        table: Option<TableRoute>,
    ) -> (route: Option<(EgressRoute, ChecksumCapabilities)>)
        requires
            self.wf(),
            self.live(arrival),
            table matches Some(t) ==> self.live(t.iface),
        ensures
            match route {
                Some((r, caps)) => {
                    &&& reply_route_of(self.ifaces@, arrival, *dst_addr, table) == Some(r)
                    &&& self.live(r.iface)
                    &&& caps == self.spec_iface(r.iface).checksum
                },
                None => reply_route_of(self.ifaces@, arrival, *dst_addr, table) is None,
            },
            dst_addr.spec_is_unicast() && !(dst_addr matches IpAddress::Ipv6(dst)
                && dst.spec_is_link_local()) && (forall|j: int| #[trigger]
                occupied(self.ifaces@, j) ==> !self.ifaces@[j]->0.spec_in_same_network(*dst_addr))
                ==> match table {
                Some(t) => route matches Some((r, _)) && r.iface == t.iface && r.next_hop
                    == t.via_router,
                None => route is None,
            },
    {
        proof {
            lemma_first_iface(
                self.ifaces@,
                0,
                IfaceBinding::Any,
                |f: IfaceState| f.spec_in_same_network(*dst_addr),
            );
        }
        let route: Option<EgressRoute> = match dst_addr {
            IpAddress::Ipv6(dst) if dst.is_link_local() => Some(
                EgressRoute {
                    iface: arrival,
                    next_hop: *dst_addr,
                    ip_mtu: self.ifaces.get(arrival.index).ip_mtu,
                },
            ),
            _ => self.route(IfaceBinding::Any, dst_addr, table),
        };
        match route {
            Some(r) => {
                proof {
                    law_route(self.ifaces@, IfaceBinding::Any, *dst_addr, table);
                }
                let caps = self.ifaces.get(r.iface.index).checksum;
                Some((r, caps))
            },
            None => None,
        }
    }

    /// The first Ethernet-medium interface, for unbound Ethernet-mode raw sockets, whose
    /// frames carry no routing information.
    pub fn first_ethernet_iface(&self) -> (handle: Option<IfaceHandle>)
        ensures
            handle == match first_iface(
                self.ifaces@,
                0,
                IfaceBinding::Any,
                |f: IfaceState| f.medium == Medium::Ethernet,
            ) {
                Some(i) => Some(self.ifaces@[i]->0.handle),
                None => None,
            },
            handle is None <==> forall|j: int| #[trigger]
                occupied(self.ifaces@, j) ==> self.ifaces@[j]->0.medium != Medium::Ethernet,
            handle matches Some(h) ==> exists|i: int| #[trigger]
                occupied(self.ifaces@, i) && self.ifaces@[i]->0.handle == h
                    && self.ifaces@[i]->0.medium == Medium::Ethernet && forall|j: int|
                    0 <= j < i && #[trigger] occupied(self.ifaces@, j)
                        ==> self.ifaces@[j]->0.medium != Medium::Ethernet,
    {
        proof {
            lemma_first_iface(
                self.ifaces@,
                0,
                IfaceBinding::Any,
                |f: IfaceState| f.medium == Medium::Ethernet,
            );
        }
        let count: usize = self.ifaces.slot_count();
        let mut index: usize = 0;
        let ghost wanted = |f: IfaceState| f.medium == Medium::Ethernet;
        while index < count
            invariant
                index <= count,
                count == self.ifaces@.len(),
                wanted == (|f: IfaceState| f.medium == Medium::Ethernet),
                first_iface(self.ifaces@, 0, IfaceBinding::Any, wanted) == first_iface(
                    self.ifaces@,
                    index as int,
                    IfaceBinding::Any,
                    wanted,
                ),
            decreases count - index,
        {
            if self.ifaces.contains(index) {
                let iface = self.ifaces.get(index);
                if iface.medium == Medium::Ethernet {
                    proof {
                        lemma_first_iface(self.ifaces@, 0, IfaceBinding::Any, wanted);
                        assert(occupied(self.ifaces@, index as int));
                    }
                    return Some(iface.handle);
                }
            }
            index = index + 1;
        }
        None
    }
}

/// The interfaces that a packet may leave through.
spec fn wants(on_link: Option<&IpAddress>) -> spec_fn(IfaceState) -> bool {
    |f: IfaceState| on_link matches Some(dst_addr) ==> f.spec_in_same_network(*dst_addr)
}

proof fn lemma_wants(
    slots: Seq<Option<IfaceState>>,
    from: int,
    binding: IfaceBinding,
    dst_addr: IpAddress,
)
    ensures
        first_iface(slots, from, binding, wants(None)) == first_iface(
            slots,
            from,
            binding,
            |f: IfaceState| true,
        ),
        first_iface(slots, from, binding, wants(Some(&dst_addr))) == first_iface(
            slots,
            from,
            binding,
            |f: IfaceState| f.spec_in_same_network(dst_addr),
        ),
    decreases slots.len() - from,
{
    if 0 <= from < slots.len() {
        lemma_wants(slots, from + 1, binding, dst_addr);
    }
}

/// What a search for an interface finds: an interface of the binding that is wanted, the first
/// of them.
proof fn lemma_first_iface(
    slots: Seq<Option<IfaceState>>,
    from: int,
    binding: IfaceBinding,
    wanted: spec_fn(IfaceState) -> bool,
)
    requires
        0 <= from,
    ensures
        first_iface(slots, from, binding, wanted) matches Some(i) ==> {
            &&& from <= i < slots.len()
            &&& occupied(slots, i)
            &&& binding.passes(slots[i]->0.handle)
            &&& wanted(slots[i]->0)
            &&& forall|j: int|
                from <= j < i && #[trigger] occupied(slots, j) && binding.passes(
                    slots[j]->0.handle,
                ) ==> !wanted(slots[j]->0)
        },
        first_iface(slots, from, binding, wanted) is None ==> forall|j: int|
            from <= j && #[trigger] occupied(slots, j) && binding.passes(slots[j]->0.handle)
                ==> !wanted(slots[j]->0),
    decreases slots.len() - from,
{
    if from < slots.len() {
        lemma_first_iface(slots, from + 1, binding, wanted);
    }
}

/// Where packets go. A packet to a broadcast address or a multicast group leaves through the
/// first interface that the binding allows, straight to its destination. So does a packet to an
/// address on a network of such an interface, through the first of them that has the network. A
/// packet to any other address goes to the gateway of the entry of the routing table, and
/// nowhere without one.
pub proof fn law_route_decision(
    slots: Seq<Option<IfaceState>>,
    binding: IfaceBinding,
    dst_addr: IpAddress,
    table: Option<TableRoute>,
)
    requires
        ifaces_ok(slots),
    ensures
        !dst_addr.spec_is_unicast() ==> match route_of(slots, binding, dst_addr, table) {
            Some(r) => {
                &&& occupied(slots, r.iface.index as int)
                &&& binding.passes(r.iface)
                &&& r.next_hop == dst_addr
                &&& r.ip_mtu == slots[r.iface.index as int]->0.ip_mtu
                &&& forall|j: int|
                    0 <= j < r.iface.index && #[trigger] occupied(slots, j) ==> !binding.passes(
                        slots[j]->0.handle,
                    )
            },
            None => forall|j: int| #[trigger]
                occupied(slots, j) ==> !binding.passes(slots[j]->0.handle),
        },
        forall|j: int, k: int|
            #![trigger slots[j]->0.ip_addrs@[k]]
            dst_addr.spec_is_unicast() && occupied(slots, j) && binding.passes(slots[j]->0.handle)
                && 0 <= k < slots[j]->0.ip_addrs@.len()
                && slots[j]->0.ip_addrs@[k].spec_contains(dst_addr) ==> {
                &&& route_of(slots, binding, dst_addr, table) matches Some(r)
                &&& r.next_hop == dst_addr
                &&& r.iface.index <= j
                &&& occupied(slots, r.iface.index as int)
                &&& binding.passes(r.iface)
                &&& r.ip_mtu == slots[r.iface.index as int]->0.ip_mtu
                &&& exists|m: int|
                    0 <= m < slots[r.iface.index as int]->0.ip_addrs@.len() && (
                    #[trigger] slots[r.iface.index as int]->0.ip_addrs@[m]).spec_contains(dst_addr)
            },
        dst_addr.spec_is_unicast() && (forall|j: int, k: int|
            #![trigger slots[j]->0.ip_addrs@[k]]
            occupied(slots, j) && binding.passes(slots[j]->0.handle) && 0 <= k
                < slots[j]->0.ip_addrs@.len() ==> !slots[j]->0.ip_addrs@[k].spec_contains(
                dst_addr,
            )) ==> match table {
            Some(t) => {
                &&& route_of(slots, binding, dst_addr, table) matches Some(r)
                &&& r.iface == t.iface
                &&& r.next_hop == t.via_router
                &&& r.ip_mtu == slots[t.iface.index as int]->0.ip_mtu
            },
            None => route_of(slots, binding, dst_addr, table) is None,
        },
{
    let any = |f: IfaceState| true;
    let on_link = |f: IfaceState| f.spec_in_same_network(dst_addr);
    lemma_first_iface(slots, 0, binding, any);
    lemma_first_iface(slots, 0, binding, on_link);
    if !dst_addr.spec_is_unicast() {
        match first_iface(slots, 0, binding, any) {
            Some(i) => {
                assert forall|j: int| 0 <= j < i && #[trigger] occupied(
                    slots,
                    j,
                ) implies !binding.passes(slots[j]->0.handle) by {
                    assert(any(slots[j]->0));
                }
            },
            None => {
                assert forall|j: int| #[trigger] occupied(slots, j) implies !binding.passes(
                    slots[j]->0.handle,
                ) by {
                    assert(any(slots[j]->0));
                }
            },
        }
    } else {
        let found = first_iface(slots, 0, binding, on_link);
        assert forall|j: int, k: int|
            #![trigger slots[j]->0.ip_addrs@[k]]
            occupied(slots, j) && binding.passes(slots[j]->0.handle) && 0 <= k
                < slots[j]->0.ip_addrs@.len() && slots[j]->0.ip_addrs@[k].spec_contains(
                dst_addr,
            ) implies (found matches Some(i) && i <= j) by {
            assert(slots[j]->0.spec_in_same_network(dst_addr));
            assert(on_link(slots[j]->0));
        }
        if let Some(i) = found {
            assert(on_link(slots[i]->0));
            let k = choose|k: int|
                0 <= k < slots[i]->0.ip_addrs@.len() && (
                #[trigger] slots[i]->0.ip_addrs@[k]).spec_contains(dst_addr);
            assert(slots[i]->0.ip_addrs@[k].spec_contains(dst_addr));
        }
    }
}

/// Replies are routed like any other egress: to a unicast address on no network of the stack
/// they go to the gateway of the entry of the routing table, and to an address on a network of
/// an interface straight to it. Only without either is there no route. The exception is an IPv6
/// link-local destination, which is reached on the link that the packet came from.
pub proof fn law_reply_route(
    slots: Seq<Option<IfaceState>>,
    arrival: IfaceHandle,
    dst_addr: IpAddress,
    table: Option<TableRoute>,
)
    requires
        ifaces_ok(slots),
    ensures
        dst_addr matches IpAddress::Ipv6(dst) && dst.bits / 0x1_0000_0000_0000_0000
            == 0xfe80_0000_0000_0000 ==> {
            &&& reply_route_of(slots, arrival, dst_addr, table) matches Some(r)
            &&& r.iface == arrival
            &&& r.next_hop == dst_addr
            &&& r.ip_mtu == slots[arrival.index as int]->0.ip_mtu
        },
        !(dst_addr matches IpAddress::Ipv6(dst) && dst.bits / 0x1_0000_0000_0000_0000
            == 0xfe80_0000_0000_0000) && dst_addr.spec_is_unicast() && (forall|j: int, k: int|
            #![trigger slots[j]->0.ip_addrs@[k]]
            occupied(slots, j) && 0 <= k < slots[j]->0.ip_addrs@.len()
                ==> !slots[j]->0.ip_addrs@[k].spec_contains(dst_addr)) ==> match table {
            Some(t) => {
                &&& reply_route_of(slots, arrival, dst_addr, table) matches Some(r)
                &&& r.iface == t.iface
                &&& r.next_hop == t.via_router
                &&& r.ip_mtu == slots[t.iface.index as int]->0.ip_mtu
            },
            None => reply_route_of(slots, arrival, dst_addr, table) is None,
        },
        forall|j: int, k: int|
            #![trigger slots[j]->0.ip_addrs@[k]]
            !(dst_addr matches IpAddress::Ipv6(dst) && dst.bits / 0x1_0000_0000_0000_0000
                == 0xfe80_0000_0000_0000) && dst_addr.spec_is_unicast() && occupied(slots, j) && 0
                <= k < slots[j]->0.ip_addrs@.len() && slots[j]->0.ip_addrs@[k].spec_contains(
                dst_addr,
            ) ==> (reply_route_of(slots, arrival, dst_addr, table) matches Some(r) && r.next_hop
                == dst_addr && r.iface.index <= j),
        !dst_addr.spec_is_unicast() && (exists|j: int| #[trigger] occupied(slots, j)) ==> (
        reply_route_of(slots, arrival, dst_addr, table) matches Some(r) && r.next_hop == dst_addr),
{
    law_route_decision(slots, IfaceBinding::Any, dst_addr, table);
}

/// An unbound socket takes packets on every interface, and a bound one on its own interface
/// only, on which it outscores the unbound one.
pub proof fn law_binding(binding: IfaceBinding, arrival: IfaceHandle, other: IfaceHandle)
    ensures
        IfaceBinding::Any.passes(arrival),
        IfaceBinding::Iface(arrival).passes(other) <==> arrival == other,
        binding.passes(arrival) && binding.passes(other) && arrival != other ==> binding is Any,
{
}

/// A filter matches an address at the highest score exactly if it names that address, at the
/// score below if it is the unspecified address of the same family, and at the lowest score if
/// it names no address. It matches no other address.
pub proof fn law_addr_score(filter: IpListenEndpoint, addr: IpAddress)
    ensures
        spec_addr_score(filter, addr) == Some(2u8) <==> filter.addr == Some(addr)
            && !addr.spec_is_unspecified(),
        spec_addr_score(filter, addr) == Some(1u8) <==> match addr {
            IpAddress::Ipv4(_) => filter.addr matches Some(IpAddress::Ipv4(a)) && a.bits == 0,
            IpAddress::Ipv6(_) => filter.addr matches Some(IpAddress::Ipv6(a)) && a.bits == 0,
        },
        spec_addr_score(filter, addr) == Some(0u8) <==> filter.addr is None,
        spec_addr_score(filter, addr) matches Some(score) ==> score <= 2,
{
}

/// The ports that are probed are the ephemeral ports, each of them once: they start at the one
/// that the random number selects, and the one after the last port is the first one.
pub proof fn law_probed_port(random: u32, i: int, j: int)
    requires
        0 <= i < 16384,
        0 <= j < 16384,
    ensures
        probed_port(random, 0) == 49152 + random % 16384,
        49152 <= probed_port(random, i) <= 65535,
        i + 1 < 16384 ==> probed_port(random, i + 1) == if probed_port(random, i) == 65535 {
            49152int
        } else {
            probed_port(random, i) + 1
        },
        probed_port(random, i) == probed_port(random, j) ==> i == j,
{
}

/// A new interface is what its device says, with its link down and no address but the
/// link-local one that its hardware address makes. It takes part in the group that this address
/// is asked for in.
pub proof fn law_new_iface(
    iface: IfaceState,
    handle: IfaceHandle,
    caps: Capabilities,
    hardware_addr: HardwareAddress,
)
    requires
        new_iface(iface, handle, caps, hardware_addr),
    ensures
        iface.handle == handle,
        iface.medium == caps.medium,
        iface.hardware_addr == hardware_addr,
        iface.ip_mtu == caps.ip_mtu,
        iface.checksum == caps.checksum,
        iface.last_link_state is Down,
        hardware_addr is Ip ==> iface.ip_addrs@.len() == 0 && iface.multicast_groups@.len() == 0,
        hardware_addr matches HardwareAddress::Ethernet(mac) ==> {
            &&& iface.ip_addrs@.len() == 1
            &&& iface.ip_addrs@[0] matches IpCidr::Ipv6(c) && c.spec_prefix_len() == 64 && {
                let o = ipv6::address_octets(c.spec_address().bits);
                &&& o.take(8) == seq![0xfeu8, 0x80, 0, 0, 0, 0, 0, 0]
                &&& o[8] == if mac@[0] / 2 % 2 == 0 {
                    mac@[0] + 2
                } else {
                    mac@[0] - 2
                }
                &&& o.subrange(9, 11) == mac@.subrange(1, 3)
                &&& o[11] == 0xff
                &&& o[12] == 0xfe
                &&& o.subrange(13, 16) == mac@.subrange(3, 6)
                &&& iface.spec_has_multicast_group(
                    IpAddress::Ipv6(c.spec_address().spec_solicited_node()),
                )
            }
        },
{
    if let HardwareAddress::Ethernet(mac) = hardware_addr {
        if let IpCidr::Ipv6(c) = iface.ip_addrs@[0] {
            let o = ipv6::address_octets(c.spec_address().bits);
            let eui = hardware_addr.spec_eui_64()->0;
            assert(o == seq![0xfeu8, 0x80, 0, 0, 0, 0, 0, 0] + eui);
            assert(o.take(8) =~= seq![0xfeu8, 0x80, 0, 0, 0, 0, 0, 0]);
            assert(o.subrange(9, 11) =~= mac@.subrange(1, 3));
            assert(o.subrange(13, 16) =~= mac@.subrange(3, 6));
            let group = IpAddress::Ipv6(c.spec_address().spec_solicited_node());
            assert(iface.multicast_groups@[0] == group);
        }
    }
}

/// A route leaves through an interface that exists, and through the bound one if the entry of
/// the routing table does. A destination that is not an unicast address, or on the link of
/// the interface, is its own next hop.
pub proof fn law_route(
    slots: Seq<Option<IfaceState>>,
    binding: IfaceBinding,
    dst_addr: IpAddress,
    table: Option<TableRoute>,
)
    requires
        ifaces_ok(slots),
        table matches Some(t) ==> occupied(slots, t.iface.index as int),
    ensures
        route_of(slots, binding, dst_addr, table) matches Some(r) ==> {
            &&& occupied(slots, r.iface.index as int)
            &&& r.ip_mtu == slots[r.iface.index as int]->0.ip_mtu
            &&& (table matches Some(t) ==> binding.passes(t.iface)) ==> binding.passes(r.iface)
            &&& !dst_addr.spec_is_unicast() ==> r.next_hop == dst_addr
            &&& r.next_hop == dst_addr || (table matches Some(t) && r.next_hop == t.via_router
                && r.iface == t.iface)
        },
        !dst_addr.spec_is_unicast() || table is None ==> (route_of(
            slots,
            binding,
            dst_addr,
            table,
        ) matches Some(r) ==> r.next_hop == dst_addr),
{
    lemma_first_iface(slots, 0, binding, |f: IfaceState| true);
    lemma_first_iface(slots, 0, binding, |f: IfaceState| f.spec_in_same_network(dst_addr));
}

/// A binding whose interface does not exist routes nothing, unless the routing table does.
pub proof fn law_stale_binding_routes_nothing(
    slots: Seq<Option<IfaceState>>,
    bound: IfaceHandle,
    dst_addr: IpAddress,
)
    requires
        ifaces_ok(slots),
        !occupied(slots, bound.index as int),
    ensures
        route_of(slots, IfaceBinding::Iface(bound), dst_addr, None) is None,
{
    lemma_first_iface(slots, 0, IfaceBinding::Iface(bound), |f: IfaceState| true);
    lemma_first_iface(
        slots,
        0,
        IfaceBinding::Iface(bound),
        |f: IfaceState| f.spec_in_same_network(dst_addr),
    );
}

/// A reply to an IPv6 link-local address always leaves through the interface that the packet
/// came in on, whatever the routing table says, and straight to the destination.
pub proof fn law_link_local_reply(
    slots: Seq<Option<IfaceState>>,
    arrival: IfaceHandle,
    dst_addr: ipv6::Address,
    table: Option<TableRoute>,
)
    requires
        dst_addr.spec_is_link_local(),
    ensures
        reply_route_of(slots, arrival, IpAddress::Ipv6(dst_addr), table) matches Some(route)
            && route.iface == arrival && route.next_hop == IpAddress::Ipv6(dst_addr),
{
}

} // verus!

//! Packets that wait for the hardware address of their next hop.

use vstd::prelude::*;

use crate::iface::IfaceHandle;
use crate::time::{Duration, Instant};
use crate::wire::ip::Address as IpAddress;
use crate::wire::HardwareAddress;

verus! {

/// What names a neighbor: an interface, and an address on its link.
#[derive(Debug, Clone, Copy, PartialEq, Eq, Structural)]
pub struct NeighborKey {
    /// The interface.
    pub iface: IfaceHandle,
    /// The address.
    pub addr: IpAddress,
}

/// A packet that waits for a neighbor.
pub struct PendingPacket {
    /// The neighbor.
    pub key: NeighborKey,
    /// The packet, starting at the IP header.
    pub buf: Vec<u8>,
    /// When the packet was queued.
    pub queued_at: Instant,
}

/// A packet that is ready to be sent.
pub struct ResolvedPacket {
    /// The hardware address of the next hop.
    pub hardware_addr: HardwareAddress,
    /// The packet that waited for it.
    pub packet: PendingPacket,
}

/// A neighbor with its hardware address.
#[derive(Debug, Clone, Copy)]
pub struct Neighbor {
    /// The address of the neighbor.
    pub addr: IpAddress,
    /// Its hardware address.
    pub hardware_addr: HardwareAddress,
}

/// The packets that wait, the one that waits longest first.
pub struct PendingQueue {
    packets: Vec<PendingPacket>,
}

impl View for PendingQueue {
    type V = Seq<PendingPacket>;

    closed spec fn view(&self) -> Seq<PendingPacket> {
        self.packets@
    }
}

/// The first packet from position `from` on that waits for the neighbor.
pub open spec fn first_match(s: Seq<PendingPacket>, from: int, key: NeighborKey) -> Option<int>
    decreases s.len() - from,
{
    if from < 0 || from >= s.len() {
        None
    } else if s[from].key == key {
        Some(from)
    } else {
        first_match(s, from + 1, key)
    }
}

/// The first packet from position `from` on that waits on the interface.
pub open spec fn first_on(s: Seq<PendingPacket>, from: int, iface: IfaceHandle) -> Option<int>
    decreases s.len() - from,
{
    if from < 0 || from >= s.len() {
        None
    } else if s[from].key.iface == iface {
        Some(from)
    } else {
        first_on(s, from + 1, iface)
    }
}

/// The packets that wait for the neighbor, in order.
pub open spec fn matching(s: Seq<PendingPacket>, key: NeighborKey) -> Seq<PendingPacket>
    decreases s.len(),
{
    if s.len() == 0 {
        seq![]
    } else if s.last().key == key {
        matching(s.drop_last(), key).push(s.last())
    } else {
        matching(s.drop_last(), key)
    }
}

/// The packets that wait for other neighbors, in order.
pub open spec fn others(s: Seq<PendingPacket>, key: NeighborKey) -> Seq<PendingPacket>
    decreases s.len(),
{
    if s.len() == 0 {
        seq![]
    } else if s.last().key == key {
        others(s.drop_last(), key)
    } else {
        others(s.drop_last(), key).push(s.last())
    }
}

/// The packets that wait on other interfaces, in order.
pub open spec fn off_iface(s: Seq<PendingPacket>, iface: IfaceHandle) -> Seq<PendingPacket>
    decreases s.len(),
{
    if s.len() == 0 {
        seq![]
    } else if s.last().key.iface == iface {
        off_iface(s.drop_last(), iface)
    } else {
        off_iface(s.drop_last(), iface).push(s.last())
    }
}

/// What a search from a position finds is a packet that waits for the neighbor, and none
/// before it does.
proof fn lemma_first_match(s: Seq<PendingPacket>, from: int, key: NeighborKey)
    requires
        0 <= from <= s.len(),
    ensures
        first_match(s, from, key) matches Some(i) ==> {
            &&& from <= i < s.len()
            &&& s[i].key == key
            &&& forall|j: int| from <= j < i ==> (#[trigger] s[j]).key != key
        },
        first_match(s, from, key) is None ==> forall|j: int|
            from <= j < s.len() ==> (#[trigger] s[j]).key != key,
    decreases s.len() - from,
{
    if from < s.len() && s[from].key != key {
        lemma_first_match(s, from + 1, key);
    }
}

/// Without a packet for the neighbor, all packets wait for others.
proof fn lemma_no_match(s: Seq<PendingPacket>, key: NeighborKey)
    requires
        forall|j: int| 0 <= j < s.len() ==> (#[trigger] s[j]).key != key,
    ensures
        matching(s, key) == Seq::<PendingPacket>::empty(),
        others(s, key) == s,
    decreases s.len(),
{
    if s.len() > 0 {
        lemma_no_match(s.drop_last(), key);
        assert(s.drop_last().push(s.last()) =~= s);
    }
}

/// Taking the first packet for a neighbor out leaves the rest as it is.
proof fn lemma_remove_first(s: Seq<PendingPacket>, i: int, key: NeighborKey)
    requires
        0 <= i < s.len(),
        s[i].key == key,
        forall|j: int| 0 <= j < i ==> (#[trigger] s[j]).key != key,
    ensures
        matching(s, key).len() > 0,
        matching(s, key)[0] == s[i],
        matching(s.remove(i), key) == matching(s, key).skip(1),
        others(s.remove(i), key) == others(s, key),
    decreases s.len(),
{
    let front = s.drop_last();
    if i == s.len() - 1 {
        assert(s.remove(i) =~= front);
        lemma_no_match(front, key);
        assert(matching(s, key).skip(1) =~= seq![]);
    } else {
        lemma_remove_first(front, i, key);
        assert(s.remove(i).drop_last() =~= front.remove(i));
        assert(s.remove(i).last() == s.last());
        if s.last().key == key {
            assert(matching(s, key).skip(1) =~= matching(front, key).skip(1).push(s.last()));
        }
    }
}

impl PendingQueue {
    /// Create a queue without packets.
    pub fn new() -> (queue: PendingQueue)
        ensures
            queue@ == Seq::<PendingPacket>::empty(),
    {
        PendingQueue { packets: Vec::new() }
    }

    /// Let a packet wait for a neighbor.
    pub fn push(&mut self, key: NeighborKey, buf: Vec<u8>, now: Instant)
        ensures
            final(self)@ == old(self)@.push((PendingPacket { key, buf, queued_at: now })),
    {
        self.packets.push(PendingPacket { key, buf, queued_at: now });
    }

    /// The position of the first packet that waits for a neighbor.
    fn position(&self, key: &NeighborKey) -> (position: Option<usize>)
        ensures
            match position {
                Some(i) => first_match(self@, 0, *key) == Some(i as int) && i < self@.len(),
                None => first_match(self@, 0, *key) is None,
            },
    {
        let n: usize = self.packets.len();
        let mut i: usize = 0;
        while i < n
            invariant
                i <= n,
                n == self.packets@.len(),
                first_match(self@, 0, *key) == first_match(self@, i as int, *key),
            decreases n - i,
        {
            if self.packets[i].key == *key {
                return Some(i);
            }
            i = i + 1;
        }
        None
    }

    /// Query whether a packet waits for a neighbor.
    pub fn has_matching(&self, key: &NeighborKey) -> (r: bool)
        ensures
            r == (matching(self@, *key).len() > 0),
    {
        proof {
            lemma_first_match(self@, 0, *key);
            match first_match(self@, 0, *key) {
                Some(i) => lemma_remove_first(self@, i, *key),
                None => lemma_no_match(self@, *key),
            }
        }
        self.position(key).is_some()
    }

    /// Take the packet that waits longest for a neighbor out of the queue.
    pub fn pop_matching(&mut self, key: &NeighborKey) -> (packet: Option<PendingPacket>)
        ensures
            packet is Some <==> matching(old(self)@, *key).len() > 0,
            packet is None ==> final(self)@ == old(self)@,
            packet matches Some(p) ==> {
                &&& p == matching(old(self)@, *key)[0]
                &&& first_match(old(self)@, 0, *key) matches Some(i) && final(self)@ == old(
                    self,
                )@.remove(i)
                &&& matching(final(self)@, *key) == matching(old(self)@, *key).skip(1)
                &&& others(final(self)@, *key) == others(old(self)@, *key)
            },
    {
        proof {
            lemma_first_match(self@, 0, *key);
            match first_match(self@, 0, *key) {
                Some(i) => lemma_remove_first(self@, i, *key),
                None => lemma_no_match(self@, *key),
            }
        }
        match self.position(key) {
            Some(i) => Some(self.packets.remove(i)),
            None => None,
        }
    }

    /// Forget the packets that wait on an interface.
    pub fn purge_iface(&mut self, iface: IfaceHandle)
        ensures
            final(self)@ == off_iface(old(self)@, iface),
    {
        let mut i: usize = 0;
        while i < self.packets.len()
            invariant
                i <= self.packets@.len(),
                off_iface(self@, iface) == off_iface(old(self)@, iface),
                forall|j: int| 0 <= j < i ==> (#[trigger] self@[j]).key.iface != iface,
            decreases self.packets@.len() - i,
        {
            if self.packets[i].key.iface == iface {
                proof {
                    lemma_off_iface_remove(self@, i as int, iface);
                }
                let _dropped = self.packets.remove(i);
            } else {
                i = i + 1;
            }
        }
        proof {
            lemma_off_iface_none(self@, iface);
        }
    }

    /// The first packet from position `cursor` on that waits on an interface, and the neighbor
    /// that it waits for.
    pub fn next_on(&self, iface: IfaceHandle, cursor: usize) -> (next: Option<(usize, NeighborKey)>)
        ensures
            match next {
                Some((i, key)) => {
                    &&& first_on(self@, cursor as int, iface) == Some(i as int)
                    &&& cursor <= i < self@.len() <= usize::MAX
                    &&& key == self@[i as int].key
                    &&& key.iface == iface
                },
                None => first_on(self@, cursor as int, iface) is None,
            },
    {
        let n: usize = self.packets.len();
        let mut i: usize = cursor;
        while i < n
            invariant
                cursor <= i,
                n == self.packets@.len(),
                first_on(self@, cursor as int, iface) == first_on(self@, i as int, iface),
            decreases n - i,
        {
            if self.packets[i].key.iface == iface {
                return Some((i, self.packets[i].key));
            }
            i = i + 1;
        }
        None
    }

    /// Take the packets that wait for `key` out of the queue, in FIFO order, for as long as the
    /// device has room for them: `room` frames. The rest stay parked.
    pub fn flush_pending(&mut self, key: &NeighborKey, room: usize) -> (sent: Vec<PendingPacket>)
        ensures
            sent@ == matching(old(self)@, *key).take(fitting(old(self)@, *key, room as int)),
            matching(final(self)@, *key) == matching(old(self)@, *key).skip(
                fitting(old(self)@, *key, room as int),
            ),
            others(final(self)@, *key) == others(old(self)@, *key),
            final(self)@ == flushed(old(self)@, *key, room as int),
    {
        let mut sent: Vec<PendingPacket> = Vec::new();
        let ghost all = matching(self@, *key);
        assert(all.skip(0) =~= all);
        assert(all.take(0) =~= seq![]);
        while sent.len() < room && self.has_matching(key)
            invariant
                all == matching(old(self)@, *key),
                sent@.len() <= all.len(),
                sent@.len() <= room,
                sent@ == all.take(sent@.len() as int),
                matching(self@, *key) == all.skip(sent@.len() as int),
                others(self@, *key) == others(old(self)@, *key),
                flushed(self@, *key, room - sent@.len()) == flushed(old(self)@, *key, room as int),
            decreases all.len() - sent@.len(),
        {
            let ghost k = sent@.len() as int;
            match self.pop_matching(key) {
                Some(packet) => {
                    sent.push(packet);
                    assert(all.skip(k).skip(1) =~= all.skip(k + 1));
                    assert(all.take(k).push(all[k]) =~= all.take(k + 1));
                },
                None => {},
            }
        }
        proof {
            if matching(self@, *key).len() == 0 {
                assert(all.len() == sent@.len());
                lemma_first_match(self@, 0, *key);
                if let Some(i) = first_match(self@, 0, *key) {
                    lemma_remove_first(self@, i, *key);
                }
            }
        }
        sent
    }
}

impl PendingQueue {
    /// Take all packets that wait for `key` out of the queue, in FIFO order.
    pub fn take_matching(&mut self, key: &NeighborKey) -> (packets: Vec<PendingPacket>)
        ensures
            packets@ == matching(old(self)@, *key),
            final(self)@ == others(old(self)@, *key),
    {
        let mut packets: Vec<PendingPacket> = Vec::new();
        let ghost all = matching(self@, *key);
        assert(all.skip(0) =~= all);
        while self.has_matching(key)
            invariant
                all == matching(old(self)@, *key),
                packets@.len() <= all.len(),
                packets@ == all.take(packets@.len() as int),
                matching(self@, *key) == all.skip(packets@.len() as int),
                others(self@, *key) == others(old(self)@, *key),
            decreases all.len() - packets@.len(),
        {
            let ghost k = packets@.len() as int;
            match self.pop_matching(key) {
                Some(packet) => {
                    packets.push(packet);
                    assert(all.skip(k).skip(1) =~= all.skip(k + 1));
                    assert(all.take(k).push(all[k]) =~= all.take(k + 1));
                },
                None => {},
            }
        }
        proof {
            lemma_first_match(self@, 0, *key);
            match first_match(self@, 0, *key) {
                Some(i) => lemma_remove_first(self@, i, *key),
                None => lemma_no_match(self@, *key),
            }
            assert(all.take(all.len() as int) =~= all);
        }
        packets
    }
}

/// The packets that were queued after `limit`.
pub open spec fn queued_after(s: Seq<PendingPacket>, limit: Instant) -> Seq<PendingPacket>
    decreases s.len(),
{
    if s.len() == 0 {
        s
    } else if s.last().queued_at.micros > limit.micros {
        queued_after(s.drop_last(), limit).push(s.last())
    } else {
        queued_after(s.drop_last(), limit)
    }
}

/// Taking a packet out that was not queued after `limit` changes nothing of what was.
proof fn lemma_queued_after_remove(s: Seq<PendingPacket>, i: int, limit: Instant)
    requires
        0 <= i < s.len(),
        s[i].queued_at.micros <= limit.micros,
    ensures
        queued_after(s.remove(i), limit) == queued_after(s, limit),
    decreases s.len(),
{
    if i == s.len() - 1 {
        assert(s.remove(i) =~= s.drop_last());
    } else {
        lemma_queued_after_remove(s.drop_last(), i, limit);
        assert(s.remove(i).drop_last() =~= s.drop_last().remove(i));
        assert(s.remove(i).last() == s.last());
    }
}

proof fn lemma_queued_after_all(s: Seq<PendingPacket>, limit: Instant)
    requires
        forall|j: int| 0 <= j < s.len() ==> (#[trigger] s[j]).queued_at.micros > limit.micros,
    ensures
        queued_after(s, limit) == s,
    decreases s.len(),
{
    if s.len() > 0 {
        lemma_queued_after_all(s.drop_last(), limit);
        assert(s.drop_last().push(s.last()) =~= s);
    }
}

impl PendingQueue {
    /// Drop the packets that were queued at `limit` or before: their neighbor resolution timed
    /// out.
    pub fn purge_expired(&mut self, limit: Instant)
        ensures
            final(self)@ == queued_after(old(self)@, limit),
    {
        let mut i: usize = 0;
        while i < self.packets.len()
            invariant
                i <= self.packets@.len(),
                queued_after(self.packets@, limit) == queued_after(old(self)@, limit),
                forall|j: int|
                    0 <= j < i ==> (#[trigger] self.packets@[j]).queued_at.micros > limit.micros,
            decreases self.packets@.len() - i,
        {
            if self.packets[i].queued_at.micros <= limit.micros {
                proof {
                    lemma_queued_after_remove(self.packets@, i as int, limit);
                }
                let _packet = self.packets.remove(i);
            } else {
                i = i + 1;
            }
        }
        proof {
            lemma_queued_after_all(self.packets@, limit);
        }
    }
}

/// Whether `at` is when the first of the packets has waited for `timeout`: the earliest time at
/// which one was queued plus the timeout, or never if none waits.
pub open spec fn is_expiry(s: Seq<PendingPacket>, timeout: Duration, at: Instant) -> bool {
    if s.len() == 0 {
        at.micros == i64::MAX
    } else {
        &&& forall|i: int|
            0 <= i < s.len() ==> at.micros <= (#[trigger] s[i]).queued_at.spec_after(timeout).micros
        &&& exists|i: int|
            0 <= i < s.len() && at == (#[trigger] s[i]).queued_at.spec_after(timeout)
    }
}

/// When the first of the packets has waited for `timeout`.
pub open spec fn expiry(s: Seq<PendingPacket>, timeout: Duration) -> Instant
    decreases s.len(),
{
    if s.len() == 0 {
        Instant { micros: i64::MAX }
    } else {
        expiry(s.drop_last(), timeout).spec_earlier(s.last().queued_at.spec_after(timeout))
    }
}

proof fn lemma_expiry(s: Seq<PendingPacket>, timeout: Duration)
    ensures
        is_expiry(s, timeout, expiry(s, timeout)),
    decreases s.len(),
{
    if s.len() > 0 {
        let front = s.drop_last();
        let at = expiry(s, timeout);
        let before = expiry(front, timeout);
        lemma_expiry(front, timeout);
        assert forall|i: int| 0 <= i < s.len() implies at.micros <= (
        #[trigger] s[i]).queued_at.spec_after(timeout).micros by {
            if i < front.len() {
                assert(front[i] == s[i]);
            }
        }
        if at == before && front.len() > 0 {
            let i = choose|i: int|
                0 <= i < front.len() && before == (#[trigger] front[i]).queued_at.spec_after(
                    timeout,
                );
            assert(at == s[i].queued_at.spec_after(timeout));
        } else {
            assert(at == s[s.len() - 1].queued_at.spec_after(timeout));
        }
    }
}

impl PendingQueue {
    /// When the first of the packets has waited for `timeout` and is to be dropped. Never if no
    /// packet waits.
    pub fn poll_at(&self, timeout: Duration) -> (at: Instant)
        ensures
            at == expiry(self@, timeout),
            is_expiry(self@, timeout, at),
    {
        let n: usize = self.packets.len();
        let mut at = Instant::never();
        let mut i: usize = 0;
        while i < n
            invariant
                i <= n,
                n == self.packets@.len(),
                at == expiry(self.packets@.take(i as int), timeout),
            decreases n - i,
        {
            at = at.min(self.packets[i].queued_at.after(timeout));
            proof {
                let next = self.packets@.take(i + 1);
                assert(next.drop_last() =~= self.packets@.take(i as int));
                assert(next.last() == self.packets@[i as int]);
            }
            i = i + 1;
        }
        proof {
            assert(self.packets@.take(n as int) =~= self.packets@);
            lemma_expiry(self@, timeout);
        }
        at
    }
}

/// What was queued after `limit` is no more than what was queued.
proof fn lemma_queued_after_len(s: Seq<PendingPacket>, limit: Instant)
    ensures
        queued_after(s, limit).len() <= s.len(),
        (exists|i: int| 0 <= i < s.len() && (#[trigger] s[i]).queued_at.micros <= limit.micros)
            ==> queued_after(s, limit).len() < s.len(),
    decreases s.len(),
{
    if s.len() > 0 {
        let front = s.drop_last();
        lemma_queued_after_len(front, limit);
        if exists|i: int| 0 <= i < s.len() && (#[trigger] s[i]).queued_at.micros <= limit.micros {
            let i = choose|i: int|
                0 <= i < s.len() && (#[trigger] s[i]).queued_at.micros <= limit.micros;
            if i < front.len() {
                assert(front[i] == s[i]);
            }
        }
    }
}

/// Before the time at which the first packet expires, dropping the packets that have waited for
/// the timeout drops none. From then on it drops one at least, so that polling at that time makes
/// progress.
pub proof fn law_expiry(s: Seq<PendingPacket>, timeout: Duration, now: Instant)
    requires
        expiry(s, timeout).micros < i64::MAX,
        now.micros - timeout.micros >= i64::MIN,
    ensures
        now.micros < expiry(s, timeout).micros ==> queued_after(s, now.spec_before(timeout)) == s,
        now.micros >= expiry(s, timeout).micros ==> queued_after(
            s,
            now.spec_before(timeout),
        ).len() < s.len(),
{
    let at = expiry(s, timeout);
    let limit = now.spec_before(timeout);
    lemma_expiry(s, timeout);
    if now.micros < at.micros {
        assert forall|j: int| 0 <= j < s.len() implies (#[trigger] s[j]).queued_at.micros
            > limit.micros by {
            assert(at.micros <= s[j].queued_at.spec_after(timeout).micros);
        }
        lemma_queued_after_all(s, limit);
    } else {
        let i = choose|i: int|
            0 <= i < s.len() && at == (#[trigger] s[i]).queued_at.spec_after(timeout);
        assert(s[i].queued_at.micros <= limit.micros);
        lemma_queued_after_len(s, limit);
    }
}

/// How many of the packets that wait for a neighbor are sent when there is room for `room`.
pub open spec fn fitting(s: Seq<PendingPacket>, key: NeighborKey, room: int) -> int {
    if matching(s, key).len() < room {
        matching(s, key).len() as int
    } else {
        room
    }
}

/// What stays in the queue when up to `room` packets for a neighbor are sent.
pub open spec fn flushed(s: Seq<PendingPacket>, key: NeighborKey, room: int) -> Seq<PendingPacket>
    decreases room,
{
    if room <= 0 {
        s
    } else {
        match first_match(s, 0, key) {
            Some(i) => flushed(s.remove(i), key, room - 1),
            None => s,
        }
    }
}

proof fn lemma_off_iface_remove(s: Seq<PendingPacket>, i: int, iface: IfaceHandle)
    requires
        0 <= i < s.len(),
        s[i].key.iface == iface,
    ensures
        off_iface(s.remove(i), iface) == off_iface(s, iface),
    decreases s.len(),
{
    if i == s.len() - 1 {
        assert(s.remove(i) =~= s.drop_last());
    } else {
        lemma_off_iface_remove(s.drop_last(), i, iface);
        assert(s.remove(i).drop_last() =~= s.drop_last().remove(i));
        assert(s.remove(i).last() == s.last());
    }
}

proof fn lemma_off_iface_none(s: Seq<PendingPacket>, iface: IfaceHandle)
    requires
        forall|j: int| 0 <= j < s.len() ==> (#[trigger] s[j]).key.iface != iface,
    ensures
        off_iface(s, iface) == s,
    decreases s.len(),
{
    if s.len() > 0 {
        lemma_off_iface_none(s.drop_last(), iface);
        assert(s.drop_last().push(s.last()) =~= s);
    }
}

/// The hardware address of a neighbor, by the first entry from position `from` on.
pub open spec fn hardware_addr_of(neighbors: Seq<Neighbor>, from: int, addr: IpAddress) -> Option<
    HardwareAddress,
>
    decreases neighbors.len() - from,
{
    if from < 0 || from >= neighbors.len() {
        None
    } else if neighbors[from].addr == addr {
        Some(neighbors[from].hardware_addr)
    } else {
        hardware_addr_of(neighbors, from + 1, addr)
    }
}

/// The hardware address of a neighbor, if it is known.
fn find_neighbor(neighbors: &Vec<Neighbor>, addr: IpAddress) -> (found: Option<HardwareAddress>)
    ensures
        found == hardware_addr_of(neighbors@, 0, addr),
{
    let n: usize = neighbors.len();
    let mut i: usize = 0;
    while i < n
        invariant
            i <= n,
            n == neighbors@.len(),
            hardware_addr_of(neighbors@, 0, addr) == hardware_addr_of(neighbors@, i as int, addr),
        decreases n - i,
    {
        if neighbors[i].addr == addr {
            return Some(neighbors[i].hardware_addr);
        }
        i = i + 1;
    }
    None
}

/// The packets with the hardware address that they are sent to.
pub open spec fn addressed(packets: Seq<PendingPacket>, hardware_addr: HardwareAddress) -> Seq<
    ResolvedPacket,
> {
    Seq::new(packets.len(), |i: int| ResolvedPacket { hardware_addr, packet: packets[i] })
}

/// How many packets leave the queue.
proof fn lemma_flushed_len(s: Seq<PendingPacket>, key: NeighborKey, room: int)
    requires
        room >= 0,
    ensures
        flushed(s, key, room).len() == s.len() - fitting(s, key, room),
        matching(flushed(s, key, room), key).len() == matching(s, key).len() - fitting(s, key, room),
    decreases room,
{
    lemma_first_match(s, 0, key);
    match first_match(s, 0, key) {
        Some(i) => {
            lemma_remove_first(s, i, key);
            if room > 0 {
                lemma_flushed_len(s.remove(i), key, room - 1);
            }
        },
        None => {
            lemma_no_match(s, key);
        },
    }
}

/// A packet that waits for a neighbor is among those that do.
proof fn lemma_waits(s: Seq<PendingPacket>, i: int, key: NeighborKey)
    requires
        0 <= i < s.len(),
        s[i].key == key,
    ensures
        matching(s, key).len() > 0,
{
    lemma_first_match(s, 0, key);
    match first_match(s, 0, key) {
        Some(j) => lemma_remove_first(s, j, key),
        None => {},
    }
}

/// The packets that are sent, and those that stay, when the packets on an interface whose
/// neighbors are known are sent, starting with the one at `cursor`. The first neighbor that
/// not all packets of fit for ends it.
pub open spec fn sweep(
    s: Seq<PendingPacket>,
    cursor: int,
    iface: IfaceHandle,
    neighbors: Seq<Neighbor>,
    room: int,
) -> (Seq<ResolvedPacket>, Seq<PendingPacket>)
    recommends
        0 <= cursor,
        0 <= room,
    decreases s.len(), s.len() - cursor,
{
    match first_on(s, cursor, iface) {
        None => (seq![], s),
        Some(i) => {
            let key = s[i].key;
            match hardware_addr_of(neighbors, 0, key.addr) {
                Some(hardware_addr) => {
                    let n = fitting(s, key, room);
                    let sent = addressed(matching(s, key).take(n), hardware_addr);
                    let kept = flushed(s, key, room);
                    if matching(kept, key).len() > 0 || kept.len() >= s.len() {
                        (sent, kept)
                    } else {
                        let rest = sweep(kept, i, iface, neighbors, room - n);
                        (sent + rest.0, rest.1)
                    }
                },
                None => if cursor <= i < s.len() {
                    sweep(s, i + 1, iface, neighbors, room)
                } else {
                    (seq![], s)
                },
            }
        },
    }
}

impl PendingQueue {
    /// Take the packets parked on an interface whose neighbor is resolved out of the queue, to
    /// be sent: they were left parked because the device had no room when the resolution came
    /// in. `neighbors` are the neighbors that are resolved on the interface, and `room` is the
    /// number of frames that the device has room for.
    pub fn flush_resolved_pending(
        &mut self,
        iface: IfaceHandle,
        neighbors: &Vec<Neighbor>,
        room: usize,
    ) -> (sent: Vec<ResolvedPacket>)
        ensures
            sent@ == sweep(old(self)@, 0, iface, neighbors@, room as int).0,
            final(self)@ == sweep(old(self)@, 0, iface, neighbors@, room as int).1,
            sent@.len() <= room,
            sent@.len() < room ==> forall|k: int, m: int|
                #![trigger final(self)@[k], neighbors@[m]]
                0 <= k < final(self)@.len() && final(self)@[k].key.iface == iface && 0 <= m
                    < neighbors@.len() ==> neighbors@[m].addr != final(self)@[k].key.addr,
    {
        proof {
            law_sweep(self@, 0, iface, neighbors@, room as int);
            law_sweep_is_complete(self@, 0, iface, neighbors@, room as int);
        }
        let mut sent: Vec<ResolvedPacket> = Vec::new();
        let mut left: usize = room;
        let mut cursor: usize = 0;
        let ghost whole = sweep(self@, 0, iface, neighbors@, room as int);
        assert(sent@ + whole.0 =~= whole.0);
        loop
            invariant
                whole == sweep(old(self)@, 0, iface, neighbors@, room as int),
                whole.0.len() <= room,
                whole.0.len() < room ==> forall|k: int, m: int|
                    #![trigger whole.1[k], neighbors@[m]]
                    0 <= k < whole.1.len() && whole.1[k].key.iface == iface && 0 <= m
                        < neighbors@.len() ==> neighbors@[m].addr != whole.1[k].key.addr,
                sent@ + sweep(self@, cursor as int, iface, neighbors@, left as int).0 == whole.0,
                sweep(self@, cursor as int, iface, neighbors@, left as int).1 == whole.1,
            decreases self@.len(), self@.len() - cursor,
        {
            match self.next_on(iface, cursor) {
                None => {
                    assert(sent@ + Seq::<ResolvedPacket>::empty() =~= sent@);
                    return sent;
                },
                Some((index, key)) => {
                    match find_neighbor(neighbors, key.addr) {
                        Some(hardware_addr) => {
                            let ghost before = self@;
                            let ghost sent_before = sent@;
                            let ghost n = fitting(self@, key, left as int);
                            let ghost gone = matching(self@, key).take(n);
                            proof {
                                lemma_waits(self@, index as int, key);
                                lemma_flushed_len(self@, key, left as int);
                            }
                            let flushed: Vec<PendingPacket> = self.flush_pending(&key, left);
                            let count: usize = flushed.len();
                            address_all(&mut sent, flushed, hardware_addr);
                            assert(sent@ == sent_before + addressed(gone, hardware_addr));
                            left = left - count;
                            if self.has_matching(&key) {
                                return sent;
                            }
                            let ghost rest = sweep(
                                self@,
                                index as int,
                                iface,
                                neighbors@,
                                left as int,
                            );
                            assert(sent_before + (addressed(gone, hardware_addr) + rest.0) =~= sent@
                                + rest.0);
                            cursor = index;
                        },
                        None => {
                            cursor = index + 1;
                        },
                    }
                },
            }
        }
    }
}

/// Append packets with the hardware address that they are sent to.
fn address_all(
    sent: &mut Vec<ResolvedPacket>,
    packets: Vec<PendingPacket>,
    hardware_addr: HardwareAddress,
)
    ensures
        final(sent)@ == old(sent)@ + addressed(packets@, hardware_addr),
{
    let mut packets: Vec<PendingPacket> = packets;
    let ghost all = packets@;
    let ghost mut done: int = 0;
    assert(sent@ + addressed(all.take(0), hardware_addr) =~= sent@);
    assert(all.skip(0) =~= all);
    while packets.len() > 0
        invariant
            0 <= done <= all.len(),
            packets@ == all.skip(done),
            sent@ == old(sent)@ + addressed(all.take(done), hardware_addr),
        decreases packets@.len(),
    {
        let packet: PendingPacket = packets.remove(0);
        sent.push(ResolvedPacket { hardware_addr, packet });
        proof {
            done = done + 1;
            assert(packets@ =~= all.skip(done));
            assert(sent@ =~= old(sent)@ + addressed(all.take(done), hardware_addr));
        }
    }
    assert(all.take(done) =~= all);
}

/// A sweep sends no more packets than there is room for. What it sends waited on the
/// interface for a neighbor that is known, and goes to the hardware address of that neighbor.
/// Packets on other interfaces stay, in order.
pub proof fn law_sweep(
    s: Seq<PendingPacket>,
    cursor: int,
    iface: IfaceHandle,
    neighbors: Seq<Neighbor>,
    room: int,
)
    requires
        0 <= cursor,
        0 <= room,
    ensures
        sweep(s, cursor, iface, neighbors, room).0.len() <= room,
        sweep(s, cursor, iface, neighbors, room).0.len() + sweep(
            s,
            cursor,
            iface,
            neighbors,
            room,
        ).1.len() == s.len(),
        forall|k: int|
            0 <= k < sweep(s, cursor, iface, neighbors, room).0.len() ==> {
                let r = #[trigger] sweep(s, cursor, iface, neighbors, room).0[k];
                &&& r.packet.key.iface == iface
                &&& hardware_addr_of(neighbors, 0, r.packet.key.addr) == Some(r.hardware_addr)
            },
        off_iface(sweep(s, cursor, iface, neighbors, room).1, iface) == off_iface(s, iface),
    decreases s.len(), s.len() - cursor,
{
    lemma_first_on(s, cursor, iface);
    if let Some(i) = first_on(s, cursor, iface) {
        let key = s[i].key;
        match hardware_addr_of(neighbors, 0, key.addr) {
            Some(hardware_addr) => {
                let n = fitting(s, key, room);
                let kept = flushed(s, key, room);
                lemma_flushed_len(s, key, room);
                lemma_matching_keys(s, key);
                lemma_flushed_off_iface(s, key, room);
                let sent = addressed(matching(s, key).take(n), hardware_addr);
                if !(matching(kept, key).len() > 0 || kept.len() >= s.len()) {
                    law_sweep(kept, i, iface, neighbors, room - n);
                }
            },
            None => {
                law_sweep(s, i + 1, iface, neighbors, room);
            },
        }
    }
}

proof fn lemma_first_on(s: Seq<PendingPacket>, from: int, iface: IfaceHandle)
    ensures
        first_on(s, from, iface) matches Some(i) ==> {
            &&& from <= i < s.len()
            &&& 0 <= i
            &&& s[i].key.iface == iface
            &&& forall|j: int| from <= j < i ==> (#[trigger] s[j]).key.iface != iface
        },
        0 <= from && first_on(s, from, iface) is None ==> forall|j: int|
            from <= j < s.len() ==> (#[trigger] s[j]).key.iface != iface,
    decreases s.len() - from,
{
    if 0 <= from < s.len() && s[from].key.iface != iface {
        lemma_first_on(s, from + 1, iface);
    }
}

proof fn lemma_matching_keys(s: Seq<PendingPacket>, key: NeighborKey)
    ensures
        forall|k: int| 0 <= k < matching(s, key).len() ==> (#[trigger] matching(s, key)[k]).key == key,
    decreases s.len(),
{
    if s.len() > 0 {
        lemma_matching_keys(s.drop_last(), key);
    }
}

proof fn lemma_flushed_off_iface(s: Seq<PendingPacket>, key: NeighborKey, room: int)
    ensures
        off_iface(flushed(s, key, room), key.iface) == off_iface(s, key.iface),
    decreases room,
{
    if room > 0 {
        lemma_first_match(s, 0, key);
        if let Some(i) = first_match(s, 0, key) {
            lemma_off_iface_remove(s, i, key.iface);
            lemma_flushed_off_iface(s.remove(i), key, room - 1);
        }
    }
}

/// What is taken out of the queue and what is left, as parts of the queue: the packets for a
/// neighbor, those for others, those on other interfaces, and those that were queued after a
/// point in time. The order stays.
pub proof fn law_parts(
    s: Seq<PendingPacket>,
    key: NeighborKey,
    iface: IfaceHandle,
    limit: Instant,
)
    ensures
        matching(s, key) == s.filter(|p: PendingPacket| p.key == key),
        others(s, key) == s.filter(|p: PendingPacket| p.key != key),
        off_iface(s, iface) == s.filter(|p: PendingPacket| p.key.iface != iface),
        queued_after(s, limit) == s.filter(
            |p: PendingPacket| p.queued_at.micros > limit.micros,
        ),
    decreases s.len(),
{
    reveal(Seq::filter);
    if s.len() > 0 {
        law_parts(s.drop_last(), key, iface, limit);
    }
}

/// Sending the packets for a neighbor sends the ones that wait longest, as many as there is room
/// for, and leaves the rest of them and the packets for others as they are.
pub proof fn law_flush(s: Seq<PendingPacket>, key: NeighborKey, other: NeighborKey, room: int)
    requires
        0 <= room,
        other != key,
    ensures
        ({
            let all = s.filter(|p: PendingPacket| p.key == key);
            let kept = flushed(s, key, room);
            &&& fitting(s, key, room) == if all.len() < room {
                all.len() as int
            } else {
                room
            }
            &&& kept.filter(|p: PendingPacket| p.key == key) == all.skip(fitting(s, key, room))
            &&& kept.filter(|p: PendingPacket| p.key == other) == s.filter(
                |p: PendingPacket| p.key == other,
            )
            &&& kept.len() == s.len() - fitting(s, key, room)
        }),
{
    let at = Instant { micros: 0 };
    law_parts(s, key, key.iface, at);
    law_parts(s, other, key.iface, at);
    law_parts(flushed(s, key, room), key, key.iface, at);
    law_parts(flushed(s, key, room), other, key.iface, at);
    lemma_flushed_len(s, key, room);
    lemma_flushed_parts(s, key, other, room);
}

proof fn lemma_flushed_parts(s: Seq<PendingPacket>, key: NeighborKey, other: NeighborKey, room: int)
    requires
        0 <= room,
        other != key,
    ensures
        matching(flushed(s, key, room), key) == matching(s, key).skip(fitting(s, key, room)),
        matching(flushed(s, key, room), other) == matching(s, other),
    decreases room,
{
    lemma_first_match(s, 0, key);
    match first_match(s, 0, key) {
        Some(i) => {
            lemma_remove_first(s, i, key);
            lemma_remove_other(s, i, other);
            if room > 0 {
                lemma_flushed_parts(s.remove(i), key, other, room - 1);
                assert(matching(s, key).skip(1).skip(fitting(s.remove(i), key, room - 1))
                    =~= matching(s, key).skip(fitting(s, key, room)));
            } else {
                assert(matching(s, key).skip(0) =~= matching(s, key));
            }
        },
        None => {
            lemma_no_match(s, key);
            assert(matching(s, key).skip(0) =~= matching(s, key));
        },
    }
}

/// Taking a packet out leaves the packets for other neighbors as they are.
proof fn lemma_remove_other(s: Seq<PendingPacket>, i: int, other: NeighborKey)
    requires
        0 <= i < s.len(),
        s[i].key != other,
    ensures
        matching(s.remove(i), other) == matching(s, other),
    decreases s.len(),
{
    if i == s.len() - 1 {
        assert(s.remove(i) =~= s.drop_last());
    } else {
        lemma_remove_other(s.drop_last(), i, other);
        assert(s.remove(i).drop_last() =~= s.drop_last().remove(i));
        assert(s.remove(i).last() == s.last());
    }
}

/// The hardware address of a neighbor is that of its first entry, and there is none without an
/// entry.
pub proof fn law_hardware_addr_of(neighbors: Seq<Neighbor>, from: int, addr: IpAddress)
    requires
        0 <= from <= neighbors.len(),
    ensures
        match hardware_addr_of(neighbors, from, addr) {
            Some(hardware_addr) => exists|i: int|
                {
                    &&& from <= i < neighbors.len()
                    &&& (#[trigger] neighbors[i]).addr == addr
                    &&& neighbors[i].hardware_addr == hardware_addr
                    &&& forall|j: int| from <= j < i ==> (#[trigger] neighbors[j]).addr != addr
                },
            None => forall|i: int|
                from <= i < neighbors.len() ==> (#[trigger] neighbors[i]).addr != addr,
        },
    decreases neighbors.len() - from,
{
    if from < neighbors.len() {
        if neighbors[from].addr == addr {
            assert(neighbors[from].addr == addr);
        } else {
            law_hardware_addr_of(neighbors, from + 1, addr);
            if let Some(hardware_addr) = hardware_addr_of(neighbors, from, addr) {
                let i = choose|i: int|
                    {
                        &&& from + 1 <= i < neighbors.len()
                        &&& (#[trigger] neighbors[i]).addr == addr
                        &&& neighbors[i].hardware_addr == hardware_addr
                        &&& forall|j: int|
                            from + 1 <= j < i ==> (#[trigger] neighbors[j]).addr != addr
                    };
                assert(neighbors[i].addr == addr);
            }
        }
    }
}

/// Packets in front of the first one for a neighbor stay where they are.
proof fn lemma_flushed_front(s: Seq<PendingPacket>, key: NeighborKey, room: int, front: int)
    requires
        0 <= front <= s.len(),
        forall|j: int| 0 <= j < front ==> (#[trigger] s[j]).key != key,
    ensures
        flushed(s, key, room).len() >= front,
        forall|j: int| 0 <= j < front ==> #[trigger] flushed(s, key, room)[j] == s[j],
    decreases room,
{
    lemma_first_match(s, 0, key);
    if room > 0 {
        if let Some(i) = first_match(s, 0, key) {
            assert(i >= front);
            assert(forall|j: int| 0 <= j < front ==> #[trigger] s.remove(i)[j] == s[j]);
            lemma_flushed_front(s.remove(i), key, room - 1, front);
        }
    }
}

/// A sweep goes on until the device is full or no packet on the interface is left whose neighbor
/// is known: a packet for a neighbor that does not answer holds no other packet back.
pub proof fn law_sweep_is_complete(
    s: Seq<PendingPacket>,
    cursor: int,
    iface: IfaceHandle,
    neighbors: Seq<Neighbor>,
    room: int,
)
    requires
        0 <= cursor,
        0 <= room,
        forall|k: int, m: int|
            #![trigger s[k], neighbors[m]]
            0 <= k < cursor && k < s.len() && s[k].key.iface == iface && 0 <= m < neighbors.len()
                ==> neighbors[m].addr != s[k].key.addr,
    ensures
        sweep(s, cursor, iface, neighbors, room).0.len() < room ==> forall|k: int, m: int|
            #![trigger sweep(s, cursor, iface, neighbors, room).1[k], neighbors[m]]
            0 <= k < sweep(s, cursor, iface, neighbors, room).1.len() && sweep(
                s,
                cursor,
                iface,
                neighbors,
                room,
            ).1[k].key.iface == iface && 0 <= m < neighbors.len() ==> neighbors[m].addr != sweep(
                s,
                cursor,
                iface,
                neighbors,
                room,
            ).1[k].key.addr,
    decreases s.len(), s.len() - cursor,
{
    lemma_first_on(s, cursor, iface);
    match first_on(s, cursor, iface) {
        None => {},
        Some(i) => {
            let key = s[i].key;
            law_hardware_addr_of(neighbors, 0, key.addr);
            match hardware_addr_of(neighbors, 0, key.addr) {
                Some(hardware_addr) => {
                    let n = fitting(s, key, room);
                    let kept = flushed(s, key, room);
                    lemma_flushed_len(s, key, room);
                    lemma_waits(s, i, key);
                    assert forall|j: int| 0 <= j < i implies (#[trigger] s[j]).key != key by {
                        if s[j].key.iface == iface {
                            let m = choose|m: int|
                                0 <= m < neighbors.len() && (#[trigger] neighbors[m]).addr
                                    == key.addr;
                            assert(j < cursor);
                            assert(neighbors[m].addr != s[j].key.addr);
                        }
                    }
                    lemma_flushed_front(s, key, room, i);
                    if !(matching(kept, key).len() > 0 || kept.len() >= s.len()) {
                        assert forall|k: int, m: int|
                            #![trigger kept[k], neighbors[m]]
                            0 <= k < i && k < kept.len() && kept[k].key.iface == iface && 0 <= m
                                < neighbors.len() implies neighbors[m].addr != kept[k].key.addr by {
                            assert(kept[k] == s[k]);
                        }
                        law_sweep_is_complete(kept, i, iface, neighbors, room - n);
                    }
                },
                None => {
                    law_sweep_is_complete(s, i + 1, iface, neighbors, room);
                },
            }
        },
    }
}

/// The packets of a sweep.
pub open spec fn packets_of(sent: Seq<ResolvedPacket>) -> Seq<PendingPacket> {
    Seq::new(sent.len(), |i: int| sent[i].packet)
}

proof fn lemma_matching_append(a: Seq<PendingPacket>, b: Seq<PendingPacket>, key: NeighborKey)
    ensures
        matching(a + b, key) == matching(a, key) + matching(b, key),
    decreases b.len(),
{
    if b.len() == 0 {
        assert(a + b =~= a);
        assert(matching(a, key) + matching(b, key) =~= matching(a, key));
    } else {
        assert((a + b).drop_last() =~= a + b.drop_last());
        lemma_matching_append(a, b.drop_last(), key);
        assert(matching(a + b, key) =~= matching(a, key) + matching(b, key));
    }
}

proof fn lemma_matching_own(s: Seq<PendingPacket>, key: NeighborKey, other: NeighborKey)
    requires
        forall|j: int| 0 <= j < s.len() ==> (#[trigger] s[j]).key == key,
    ensures
        matching(s, other) == if other == key {
            s
        } else {
            seq![]
        },
    decreases s.len(),
{
    if s.len() > 0 {
        lemma_matching_own(s.drop_last(), key, other);
        assert(s.drop_last().push(s.last()) =~= s);
    }
}

/// A sweep loses no packet and sends none twice, and the packets for a neighbor leave in the
/// order in which they were queued: those that are sent, followed by those that stay, are the
/// packets that waited for it.
pub proof fn law_sweep_keeps_order(
    s: Seq<PendingPacket>,
    cursor: int,
    iface: IfaceHandle,
    neighbors: Seq<Neighbor>,
    room: int,
    key: NeighborKey,
)
    requires
        0 <= cursor,
        0 <= room,
    ensures
        matching(packets_of(sweep(s, cursor, iface, neighbors, room).0), key) + matching(
            sweep(s, cursor, iface, neighbors, room).1,
            key,
        ) == matching(s, key),
    decreases s.len(), s.len() - cursor,
{
    lemma_first_on(s, cursor, iface);
    let swept = sweep(s, cursor, iface, neighbors, room);
    match first_on(s, cursor, iface) {
        None => {
            assert(packets_of(swept.0) =~= seq![]);
            assert(matching(seq![], key) + matching(s, key) =~= matching(s, key));
        },
        Some(i) => {
            let own = s[i].key;
            match hardware_addr_of(neighbors, 0, own.addr) {
                Some(hardware_addr) => {
                    let n = fitting(s, own, room);
                    let gone = matching(s, own).take(n);
                    let kept = flushed(s, own, room);
                    let sent = addressed(gone, hardware_addr);
                    lemma_flushed_len(s, own, room);
                    lemma_matching_keys(s, own);
                    lemma_matching_own(gone, own, key);
                    assert(packets_of(sent) =~= gone);
                    if key != own {
                        lemma_flushed_parts(s, own, key, room);
                    } else {
                        let third = NeighborKey {
                            iface: own.iface,
                            addr: other_addr(own.addr),
                        };
                        lemma_flushed_parts(s, own, third, room);
                    }
                    if matching(kept, own).len() > 0 || kept.len() >= s.len() {
                        assert(gone + matching(s, own).skip(n) =~= matching(s, own));
                        assert(Seq::<PendingPacket>::empty() + matching(s, key) =~= matching(
                            s,
                            key,
                        ));
                    } else {
                        let rest = sweep(kept, i, iface, neighbors, room - n);
                        law_sweep_keeps_order(kept, i, iface, neighbors, room - n, key);
                        assert(packets_of(sent + rest.0) =~= gone + packets_of(rest.0));
                        lemma_matching_append(gone, packets_of(rest.0), key);
                        assert(gone + matching(s, own).skip(n) =~= matching(s, own));
                        let left = matching(packets_of(rest.0), key);
                        let right = matching(rest.1, key);
                        if key == own {
                            assert((gone + left) + right =~= gone + (left + right));
                        } else {
                            assert((Seq::<PendingPacket>::empty() + left) + right =~= left + right);
                        }
                    }
                },
                None => {
                    law_sweep_keeps_order(s, i + 1, iface, neighbors, room, key);
                },
            }
        },
    }
}

/// An address that differs from the given one.
spec fn other_addr(addr: IpAddress) -> IpAddress {
    match addr {
        IpAddress::Ipv4(_) => IpAddress::Ipv6(crate::wire::ipv6::Address { bits: 0 }),
        IpAddress::Ipv6(_) => IpAddress::Ipv4(crate::wire::ipv4::Address { bits: 0 }),
    }
}

/// Which packets outlive a purge at a point in time: exactly those that have not waited for the
/// timeout then.
pub proof fn law_purge(s: Seq<PendingPacket>, now: Instant, timeout: Duration)
    requires
        now.micros - timeout.micros >= i64::MIN,
    ensures
        ({
            let kept = queued_after(s, now.spec_before(timeout));
            &&& forall|i: int|
                0 <= i < s.len() && (#[trigger] s[i]).queued_at.micros + timeout.micros > now.micros
                    ==> kept.contains(s[i])
            &&& forall|i: int|
                0 <= i < kept.len() ==> (#[trigger] kept[i]).queued_at.micros + timeout.micros
                    > now.micros
        }),
{
    let limit = now.spec_before(timeout);
    let late = |p: PendingPacket| p.queued_at.micros > limit.micros;
    let key = NeighborKey {
        iface: IfaceHandle { index: 0 },
        addr: IpAddress::Ipv4(crate::wire::ipv4::Address { bits: 0 }),
    };
    law_parts(s, key, key.iface, limit);
    let kept = queued_after(s, limit);
    assert forall|i: int|
        0 <= i < s.len() && (#[trigger] s[i]).queued_at.micros + timeout.micros
            > now.micros implies kept.contains(s[i]) by {
        s.lemma_filter_contains(late, i);
    }
    assert forall|i: int| 0 <= i < kept.len() implies (#[trigger] kept[i]).queued_at.micros
        + timeout.micros > now.micros by {
        s.lemma_filter_pred(late, i);
    }
}

} // verus!

//! Polling: in what order the stack receives packets, advances its timers and transmits.

use vstd::prelude::*;

use crate::driver::LinkState;
use crate::iface::{IfaceHandle, IfaceState};
use crate::pending::{expiry, law_purge, queued_after, PendingPacket};
use crate::stack::Stack;
use crate::storage::{law_next_occupied, lemma_slot_count, next_occupied, occupied};
use crate::time::{Duration, Instant};

verus! {

/// The part of polling an interface that is due.
#[derive(Debug, Clone, Copy, PartialEq, Eq, Structural)]
pub enum IfacePhase {
    /// Advance the solicitation timers of the neighbors.
    NeighborTimers,
    /// Receive and process frames.
    Receive,
    /// Retry the packets whose neighbor is resolved.
    FlushPending,
    /// Send the fragments that wait.
    Fragments,
    /// Look at the state of the link.
    LinkState,
    /// Run the DHCP client.
    Dhcp,
    /// Run address autoconfiguration.
    Slaac,
    /// Report the multicast groups.
    Multicast,
}

/// Where polling the stack has got to.
#[derive(Debug, Clone, Copy, PartialEq, Eq, Structural)]
pub enum PollStep {
    /// An interface is polled.
    Iface {
        /// The slot of the interface.
        index: usize,
        /// The part that is due.
        phase: IfacePhase,
    },
    /// A TCP socket is flushed.
    Tcp {
        /// The slot of the socket.
        index: usize,
    },
    /// Sockets whose sends were held back are woken, and the packets that wait for a neighbor
    /// are looked at.
    Wake,
    /// The timers are collected.
    Timers,
    /// Polling is done.
    Done,
}

/// A run over the stack that polls it.
#[derive(Debug, Clone, Copy, PartialEq, Eq, Structural)]
pub struct Poll {
    /// What is due.
    pub step: PollStep,
    /// The earliest expiring timer found so far.
    pub deadline: Instant,
    /// How long a packet waits for a neighbor before it is dropped.
    pub timeout: Duration,
}

/// What came out of a step of polling.
#[derive(Debug, Clone, Copy, PartialEq, Eq, Structural)]
pub enum PollEvent {
    /// The step is done.
    Finished,
    /// A frame was received, and processed.
    Received,
    /// The state of the link.
    Link(LinkState),
    /// When a timer expires.
    Deadline(Instant),
}

/// What else is to be done after a step of polling.
#[derive(Debug, Clone, Copy, PartialEq, Eq, Structural)]
pub enum PollEffect {
    /// Nothing.
    Nothing,
    /// The state of the link changed: wake whoever waits on the interface, and restart the
    /// configuration protocols if the link came up.
    LinkChanged {
        /// Whether the configuration protocols are restarted.
        restart: bool,
    },
    /// Wake the packet sockets, so that sends that were held back are retried.
    WakeSenders,
}

/// The step behind the interfaces before slot `from`.
pub open spec fn step_from(stack: Stack, from: int) -> PollStep {
    match next_occupied(stack.ifaces@, from) {
        Some(i) => PollStep::Iface { index: i as usize, phase: IfacePhase::NeighborTimers },
        None => tcp_step_from(stack, 0),
    }
}

/// The step behind the TCP sockets before slot `from`.
pub open spec fn tcp_step_from(stack: Stack, from: int) -> PollStep {
    match next_occupied(stack.sockets.tcp@, from) {
        Some(i) => PollStep::Tcp { index: i as usize },
        None => PollStep::Wake,
    }
}

/// The step that follows `step`.
///
/// Interfaces are polled in the order of their slots, each through all its parts, and frames are
/// received for as long as there are any. Then TCP egress is driven, which both acknowledges
/// what ingress just delivered and advances the TCP timers.
pub open spec fn step_after(stack: Stack, step: PollStep, event: PollEvent) -> PollStep {
    match step {
        PollStep::Iface { index, phase } => match phase {
            IfacePhase::NeighborTimers => PollStep::Iface { index, phase: IfacePhase::Receive },
            IfacePhase::Receive => if event is Received {
                step
            } else {
                PollStep::Iface { index, phase: IfacePhase::FlushPending }
            },
            IfacePhase::FlushPending => PollStep::Iface { index, phase: IfacePhase::Fragments },
            IfacePhase::Fragments => PollStep::Iface { index, phase: IfacePhase::LinkState },
            IfacePhase::LinkState => PollStep::Iface { index, phase: IfacePhase::Dhcp },
            IfacePhase::Dhcp => PollStep::Iface { index, phase: IfacePhase::Slaac },
            IfacePhase::Slaac => PollStep::Iface { index, phase: IfacePhase::Multicast },
            IfacePhase::Multicast => step_from(stack, index + 1),
        },
        PollStep::Tcp { index } => tcp_step_from(stack, index + 1),
        PollStep::Wake => PollStep::Timers,
        PollStep::Timers => if event is Deadline {
            step
        } else {
            PollStep::Done
        },
        PollStep::Done => PollStep::Done,
    }
}

/// The deadline after a step of a run, while the packets `pending` wait for their neighbors. A
/// timer that the step found counts, and behind the sockets the time at which the first packet
/// that waits is dropped.
pub open spec fn deadline_next(
    pending: Seq<PendingPacket>,
    poll: Poll,
    event: PollEvent,
) -> Instant {
    let found = match event {
        PollEvent::Deadline(instant) => poll.deadline.spec_earlier(instant),
        _ => poll.deadline,
    };
    if poll.step is Wake {
        found.spec_earlier(expiry(pending, poll.timeout))
    } else {
        found
    }
}

impl Poll {
    /// Whether the step that is due is about an interface or socket that exists.
    pub open spec fn wf(self, stack: Stack) -> bool {
        match self.step {
            PollStep::Iface { index, .. } => occupied(stack.ifaces@, index as int),
            PollStep::Tcp { index } => occupied(stack.sockets.tcp@, index as int),
            _ => true,
        }
    }
}

impl IfaceState {
    /// Spot the link state edges: wake whoever waits on the interface, and on the way back up
    /// re-run both configuration protocols, since a link coming back can mean a different
    /// network and what was learned before it dropped may not hold there.
    pub fn note_link_state(&mut self, link_state: LinkState) -> (effect: PollEffect)
        ensures
            *final(self) == (IfaceState { last_link_state: link_state, ..*old(self) }),
            effect == if link_state == old(self).last_link_state {
                PollEffect::Nothing
            } else {
                PollEffect::LinkChanged { restart: link_state == LinkState::Up }
            },
            link_state is Up && old(self).last_link_state is Down ==> effect == (
            PollEffect::LinkChanged { restart: true }),
            link_state is Down && old(self).last_link_state is Up ==> effect == (
            PollEffect::LinkChanged { restart: false }),
            effect is Nothing <==> link_state == old(self).last_link_state,
    {
        if link_state == self.last_link_state {
            return PollEffect::Nothing;
        }
        self.last_link_state = link_state;
        PollEffect::LinkChanged { restart: link_state == LinkState::Up }
    }

    /// Query whether routers may be solicited on the interface. A solicitation counts as sent
    /// even if the driver refuses the frame, so the budget is not spent on a down link.
    pub fn may_solicit_routers(&self) -> (r: bool)
        ensures
            r == (self.last_link_state == LinkState::Up),
    {
        self.last_link_state == LinkState::Up
    }
}

impl Stack {
    /// The step behind the TCP sockets before slot `from`.
    fn next_tcp_step(&self, from: usize) -> (step: PollStep)
        ensures
            step == tcp_step_from(*self, from as int),
            step matches PollStep::Tcp { index } ==> occupied(self.sockets.tcp@, index as int),
            !(step is Iface),
    {
        proof {
            law_next_occupied(self.sockets.tcp@, from as int);
        }
        match self.sockets.tcp.next_occupied(from) {
            Some(index) => PollStep::Tcp { index },
            None => PollStep::Wake,
        }
    }

    /// The step behind the interfaces before slot `from`.
    fn next_step(&self, from: usize) -> (step: PollStep)
        ensures
            step == step_from(*self, from as int),
            step matches PollStep::Iface { index, .. } ==> occupied(self.ifaces@, index as int),
            step matches PollStep::Tcp { index } ==> occupied(self.sockets.tcp@, index as int),
    {
        proof {
            law_next_occupied(self.ifaces@, from as int);
        }
        match self.ifaces.next_occupied(from) {
            Some(index) => PollStep::Iface { index, phase: IfacePhase::NeighborTimers },
            None => self.next_tcp_step(0),
        }
    }

    /// Start polling the stack: receive and process packets, advance internal timers, and
    /// transmit everything the TCP sockets have made due.
    ///
    /// `timestamp` is the current time. Packets that have waited for a neighbor for `timeout`
    /// are dropped: their neighbor resolution timed out. The run starts without a deadline.
    pub fn poll(&mut self, timestamp: Instant, timeout: Duration) -> (poll: Poll)
        ensures
            final(self).pending@ == queued_after(
                old(self).pending@,
                timestamp.spec_before(timeout),
            ),
            *final(self) == (Stack {
                now: timestamp,
                pending: final(self).pending,
                ..*old(self)
            }),
            poll.step == step_from(*final(self), 0),
            poll.deadline.micros == i64::MAX,
            poll.timeout == timeout,
            poll.wf(*final(self)),
            timestamp.micros - timeout.micros >= i64::MIN ==> {
                let before = old(self).pending@;
                let after = final(self).pending@;
                &&& forall|i: int|
                    0 <= i < before.len() && (#[trigger] before[i]).queued_at.micros + timeout.micros
                        > timestamp.micros ==> after.contains(before[i])
                &&& forall|i: int|
                    0 <= i < after.len() ==> (#[trigger] after[i]).queued_at.micros + timeout.micros
                        > timestamp.micros
            },
    {
        proof {
            if timestamp.micros - timeout.micros >= i64::MIN {
                law_purge(self.pending@, timestamp, timeout);
            }
        }
        self.now = timestamp;
        self.pending.purge_expired(timestamp.before(timeout));
        let step = self.next_step(0);
        Poll { step, deadline: Instant::never(), timeout }
    }

    /// Go on with polling after the step that was due, which ended with `event`.
    ///
    /// When the run is done its deadline is the earliest expiring timer. Polling should start
    /// again at that instant to let it advance timers. Special cases:
    /// - If it's [`Instant::earliest`] or in the past, polling should start again immediately.
    /// - If no timer is pending, it is [`Instant::never`]. No need to poll on a timer, only
    ///   after a packet is received or an operation is done on the stack, a socket or an
    ///   interface.
    pub fn poll_next(&mut self, poll: Poll, event: PollEvent) -> (next: (Poll, PollEffect))
        requires
            poll.wf(*old(self)),
        ensures
            next.0.wf(*final(self)),
            next.0.step == step_after(*final(self), poll.step, event),
            next.0.deadline == deadline_next(old(self).pending@, poll, event),
            next.0.timeout == poll.timeout,
            match (poll.step, event) {
                (
                    PollStep::Iface { index, phase: IfacePhase::LinkState },
                    PollEvent::Link(link_state),
                ) => {
                    let state = old(self).ifaces@[index as int]->0;
                    &&& final(self).ifaces@ == old(self).ifaces@.update(
                        index as int,
                        Some((IfaceState { last_link_state: link_state, ..state })),
                    )
                    &&& next.1 == if link_state == state.last_link_state {
                        PollEffect::Nothing
                    } else {
                        PollEffect::LinkChanged { restart: link_state == LinkState::Up }
                    }
                    &&& *final(self) == (Stack { ifaces: final(self).ifaces, ..*old(self) })
                },
                (PollStep::Wake, _) => {
                    &&& *final(self) == (Stack { tx_starved: false, ..*old(self) })
                    &&& next.1 == if old(self).tx_starved {
                        PollEffect::WakeSenders
                    } else {
                        PollEffect::Nothing
                    }
                },
                _ => *final(self) == *old(self) && next.1 is Nothing,
            },
    {
        let mut deadline = match event {
            PollEvent::Deadline(instant) => poll.deadline.min(instant),
            _ => poll.deadline,
        };
        let mut effect = PollEffect::Nothing;
        let step = match poll.step {
            PollStep::Iface { index, phase } => match phase {
                IfacePhase::NeighborTimers => PollStep::Iface { index, phase: IfacePhase::Receive },
                IfacePhase::Receive => match event {
                    PollEvent::Received => PollStep::Iface { index, phase: IfacePhase::Receive },
                    _ => PollStep::Iface { index, phase: IfacePhase::FlushPending },
                },
                IfacePhase::FlushPending => PollStep::Iface { index, phase: IfacePhase::Fragments },
                IfacePhase::Fragments => PollStep::Iface { index, phase: IfacePhase::LinkState },
                IfacePhase::LinkState => {
                    if let PollEvent::Link(link_state) = event {
                        let iface = self.iface(IfaceHandle { index });
                        effect = iface.note_link_state(link_state);
                    }
                    PollStep::Iface { index, phase: IfacePhase::Dhcp }
                },
                IfacePhase::Dhcp => PollStep::Iface { index, phase: IfacePhase::Slaac },
                IfacePhase::Slaac => PollStep::Iface { index, phase: IfacePhase::Multicast },
                IfacePhase::Multicast => {
                    proof {
                        lemma_slot_count(self.ifaces);
                    }
                    self.next_step(index + 1)
                },
            },
            PollStep::Tcp { index } => {
                proof {
                    lemma_slot_count(self.sockets.tcp);
                }
                self.next_tcp_step(index + 1)
            },
            PollStep::Wake => {
                if self.take_tx_starved() {
                    effect = PollEffect::WakeSenders;
                }
                deadline = deadline.min(self.pending.poll_at(poll.timeout));
                PollStep::Timers
            },
            PollStep::Timers => match event {
                PollEvent::Deadline(_) => PollStep::Timers,
                _ => PollStep::Done,
            },
            PollStep::Done => PollStep::Done,
        };
        (Poll { step, deadline, timeout: poll.timeout }, effect)
    }
}

/// A run polls every interface once: the step behind an interface is about the next one, and no
/// interface is between the two.
pub proof fn law_every_iface_polled(stack: Stack, index: int, other: int)
    requires
        0 <= index,
        occupied(stack.ifaces@, other),
        index < other,
    ensures
        step_from(stack, index + 1) matches PollStep::Iface { index: next, .. } && index < next
            <= other && occupied(stack.ifaces@, next as int),
{
    law_next_occupied(stack.ifaces@, index + 1);
    lemma_slot_count(stack.ifaces);
}

/// The number of parts of polling an interface that come before a part.
pub open spec fn phase_rank(phase: IfacePhase) -> int {
    match phase {
        IfacePhase::NeighborTimers => 0,
        IfacePhase::Receive => 1,
        IfacePhase::FlushPending => 2,
        IfacePhase::Fragments => 3,
        IfacePhase::LinkState => 4,
        IfacePhase::Dhcp => 5,
        IfacePhase::Slaac => 6,
        IfacePhase::Multicast => 7,
    }
}

/// A bound on the number of steps that a run takes from a step on, not counting frames and
/// timers.
pub open spec fn steps_left(stack: Stack, step: PollStep) -> int {
    let sockets = stack.sockets.tcp@.len();
    match step {
        PollStep::Iface { index, phase } => 2 + sockets + 8 * (stack.ifaces@.len() - index)
            - phase_rank(phase),
        PollStep::Tcp { index } => 2 + sockets - index,
        PollStep::Wake => 2,
        PollStep::Timers => 1,
        PollStep::Done => 0,
    }
}

/// A run ends: every step brings it closer to its end, apart from those that receive a frame or
/// collect a timer, and it can only be at its end when it is done.
pub proof fn law_poll_advances(stack: Stack, poll: Poll, event: PollEvent)
    requires
        poll.wf(stack),
    ensures
        steps_left(stack, poll.step) >= 0,
        steps_left(stack, poll.step) == 0 <==> poll.step is Done,
        !(poll.step is Done) && !(event is Received) && !(event is Deadline) ==> steps_left(
            stack,
            step_after(stack, poll.step, event),
        ) < steps_left(stack, poll.step),
        steps_left(stack, step_after(stack, poll.step, event)) <= steps_left(stack, poll.step),
{
    lemma_slot_count(stack.ifaces);
    lemma_slot_count(stack.sockets.tcp);
    law_next_occupied(stack.sockets.tcp@, 0);
    match poll.step {
        PollStep::Iface { index, phase } => {
            law_next_occupied(stack.ifaces@, index + 1);
        },
        PollStep::Tcp { index } => {
            law_next_occupied(stack.sockets.tcp@, index + 1);
        },
        _ => {},
    }
}

/// A deadline never moves back: after a step it is no later than before, no later than a timer
/// that the step found, and behind the sockets no later than the time at which the first packet
/// that waits for a neighbor is dropped.
pub proof fn law_deadline_next(pending: Seq<PendingPacket>, poll: Poll, event: PollEvent)
    ensures
        deadline_next(pending, poll, event).micros <= poll.deadline.micros,
        event matches PollEvent::Deadline(instant) ==> deadline_next(pending, poll, event).micros
            <= instant.micros,
        poll.step is Wake ==> deadline_next(pending, poll, event).micros <= expiry(
            pending,
            poll.timeout,
        ).micros,
{
}

/// The deadline of a run that started with `deadline` and found the timers `found` one by one.
pub open spec fn deadline_after(deadline: Instant, found: Seq<Instant>) -> Instant
    decreases found.len(),
{
    if found.len() == 0 {
        deadline
    } else {
        deadline_after(deadline, found.drop_last()).spec_earlier(found.last())
    }
}

/// The deadline of a run is the earliest expiring timer: no timer that was found expires before
/// it, and it is one of those, or the deadline that the run started with.
pub proof fn law_deadline_is_earliest(deadline: Instant, found: Seq<Instant>)
    ensures
        deadline_after(deadline, found).micros <= deadline.micros,
        forall|i: int|
            0 <= i < found.len() ==> deadline_after(deadline, found).micros <= (
            #[trigger] found[i]).micros,
        deadline_after(deadline, found) == deadline || found.contains(
            deadline_after(deadline, found),
        ),
    decreases found.len(),
{
    if found.len() > 0 {
        let before = found.drop_last();
        law_deadline_is_earliest(deadline, before);
        assert forall|i: int| 0 <= i < found.len() implies deadline_after(deadline, found).micros
            <= (#[trigger] found[i]).micros by {
            if i < before.len() {
                assert(before[i] == found[i]);
            }
        }
        let earlier = deadline_after(deadline, before);
        if before.contains(earlier) {
            let i = before.index_of(earlier);
            assert(found[i] == earlier);
        }
        assert(found[found.len() - 1] == found.last());
    }
}

/// A run starts with the interface in the lowest slot that holds one, or with the TCP sockets if
/// there is none, or behind them if there is none of those either.
pub proof fn law_poll_starts(stack: Stack)
    ensures
        match step_from(stack, 0) {
            PollStep::Iface { index, phase } => {
                &&& phase is NeighborTimers
                &&& occupied(stack.ifaces@, index as int)
                &&& forall|i: int| 0 <= i < index ==> !(#[trigger] occupied(stack.ifaces@, i))
            },
            PollStep::Tcp { index } => {
                &&& forall|i: int| !(#[trigger] occupied(stack.ifaces@, i))
                &&& occupied(stack.sockets.tcp@, index as int)
                &&& forall|i: int| 0 <= i < index ==> !(#[trigger] occupied(stack.sockets.tcp@, i))
            },
            PollStep::Wake => {
                &&& forall|i: int| !(#[trigger] occupied(stack.ifaces@, i))
                &&& forall|i: int| !(#[trigger] occupied(stack.sockets.tcp@, i))
            },
            _ => false,
        },
{
    law_next_occupied(stack.ifaces@, 0);
    law_next_occupied(stack.sockets.tcp@, 0);
    lemma_slot_count(stack.ifaces);
    lemma_slot_count(stack.sockets.tcp);
}

/// The parts of polling an interface follow each other: neighbor timers, frames for as long as one
/// is received, packets that waited, fragments, the link, address configuration, and multicast
/// groups.
pub proof fn law_phases(stack: Stack, index: usize, event: PollEvent)
    ensures
        ({
            let next = |phase: IfacePhase| step_after(stack, PollStep::Iface { index, phase }, event);
            &&& next(IfacePhase::NeighborTimers) == (PollStep::Iface {
                index,
                phase: IfacePhase::Receive,
            })
            &&& event is Received ==> next(IfacePhase::Receive) == (PollStep::Iface {
                index,
                phase: IfacePhase::Receive,
            })
            &&& !(event is Received) ==> next(IfacePhase::Receive) == (PollStep::Iface {
                index,
                phase: IfacePhase::FlushPending,
            })
            &&& next(IfacePhase::FlushPending) == (PollStep::Iface {
                index,
                phase: IfacePhase::Fragments,
            })
            &&& next(IfacePhase::Fragments) == (PollStep::Iface {
                index,
                phase: IfacePhase::LinkState,
            })
            &&& next(IfacePhase::LinkState) == (PollStep::Iface { index, phase: IfacePhase::Dhcp })
            &&& next(IfacePhase::Dhcp) == (PollStep::Iface { index, phase: IfacePhase::Slaac })
            &&& next(IfacePhase::Slaac) == (PollStep::Iface { index, phase: IfacePhase::Multicast })
        }),
{
}

/// Behind the last part of an interface comes the interface in the next slot that holds one, behind
/// the last interface the first TCP socket, behind a socket the next one, and behind the last
/// socket the senders are woken. Then timers are collected for as long as there are any, and that
/// is the end.
pub proof fn law_steps(stack: Stack, index: usize, event: PollEvent)
    requires
        index < usize::MAX,
    ensures
        match step_after(
            stack,
            PollStep::Iface { index, phase: IfacePhase::Multicast },
            event,
        ) {
            PollStep::Iface { index: next, phase } => {
                &&& phase is NeighborTimers
                &&& index < next
                &&& occupied(stack.ifaces@, next as int)
                &&& forall|i: int| index < i < next ==> !(#[trigger] occupied(stack.ifaces@, i))
            },
            PollStep::Tcp { index: next } => {
                &&& forall|i: int| index < i ==> !(#[trigger] occupied(stack.ifaces@, i))
                &&& occupied(stack.sockets.tcp@, next as int)
                &&& forall|i: int| 0 <= i < next ==> !(#[trigger] occupied(stack.sockets.tcp@, i))
            },
            PollStep::Wake => {
                &&& forall|i: int| index < i ==> !(#[trigger] occupied(stack.ifaces@, i))
                &&& forall|i: int| !(#[trigger] occupied(stack.sockets.tcp@, i))
            },
            _ => false,
        },
        match step_after(stack, PollStep::Tcp { index }, event) {
            PollStep::Tcp { index: next } => {
                &&& index < next
                &&& occupied(stack.sockets.tcp@, next as int)
                &&& forall|i: int|
                    index < i < next ==> !(#[trigger] occupied(stack.sockets.tcp@, i))
            },
            PollStep::Wake => forall|i: int|
                index < i ==> !(#[trigger] occupied(stack.sockets.tcp@, i)),
            _ => false,
        },
        step_after(stack, PollStep::Wake, event) is Timers,
        event is Deadline ==> step_after(stack, PollStep::Timers, event) is Timers,
        !(event is Deadline) ==> step_after(stack, PollStep::Timers, event) is Done,
        step_after(stack, PollStep::Done, event) is Done,
{
    law_next_occupied(stack.ifaces@, index + 1);
    law_next_occupied(stack.sockets.tcp@, 0);
    law_next_occupied(stack.sockets.tcp@, index + 1);
    lemma_slot_count(stack.ifaces);
    lemma_slot_count(stack.sockets.tcp);
}

/// The deadline after a step is the one before it, or the timer that the step found, or behind the
/// sockets the time at which the first packet that waits for a neighbor is dropped.
pub proof fn law_deadline_found(pending: Seq<PendingPacket>, poll: Poll, event: PollEvent)
    ensures
        ({
            let next = deadline_next(pending, poll, event).micros;
            ||| next == poll.deadline.micros
            ||| event matches PollEvent::Deadline(instant) && next == instant.micros
            ||| poll.step is Wake && next == expiry(pending, poll.timeout).micros
        }),
{
}

} // verus!

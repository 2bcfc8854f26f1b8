use xarxa::driver::{ChecksumCapabilities, HardwareAddress, LinkState, Medium};
use xarxa::iface::IfaceHandle;
use xarxa::pending::NeighborKey;
use xarxa::poll::{IfacePhase, PollEffect, PollEvent, PollStep};
use xarxa::stack::{Capabilities, Stack};
use xarxa::time::{Duration, Instant};
use xarxa::wire::Ipv4Address;

/// How long a packet waits for a neighbor.
const TIMEOUT: Duration = Duration { micros: 1000 };

fn stack_with_ifaces(count: usize) -> Stack {
    let mut stack = Stack::new();
    for _ in 0..count {
        let caps = Capabilities {
            medium: Medium::Ip,
            ip_mtu: 1500,
            checksum: ChecksumCapabilities::default(),
        };
        stack.add_iface(caps, HardwareAddress::Ip).unwrap();
    }
    stack
}

#[test]
fn every_interface_is_polled_in_order() {
    let mut stack = stack_with_ifaces(3);
    stack.remove_iface(IfaceHandle::new(1));
    let socket = stack.add_tcp_socket(4096, 4096).unwrap();
    let mut poll = stack.poll(Instant { micros: 5 }, TIMEOUT);
    assert_eq!(stack.now, Instant { micros: 5 });
    let mut steps = Vec::new();
    while poll.step != PollStep::Done {
        steps.push(poll.step);
        poll = stack.poll_next(poll, PollEvent::Finished).0;
    }
    let mut expected = Vec::new();
    for index in [0, 2] {
        for phase in [
            IfacePhase::NeighborTimers,
            IfacePhase::Receive,
            IfacePhase::FlushPending,
            IfacePhase::Fragments,
            IfacePhase::LinkState,
            IfacePhase::Dhcp,
            IfacePhase::Slaac,
            IfacePhase::Multicast,
        ] {
            expected.push(PollStep::Iface { index, phase });
        }
    }
    expected.push(PollStep::Tcp { index: socket.index });
    expected.push(PollStep::Wake);
    expected.push(PollStep::Timers);
    assert_eq!(steps, expected);
    // No timer is pending.
    assert_eq!(poll.deadline, Instant::never());
}

#[test]
fn frames_are_received_while_there_are_any() {
    let mut stack = stack_with_ifaces(1);
    let poll = stack.poll(Instant::zero(), TIMEOUT);
    let (poll, _) = stack.poll_next(poll, PollEvent::Finished);
    let receive = PollStep::Iface { index: 0, phase: IfacePhase::Receive };
    assert_eq!(poll.step, receive);
    let (poll, _) = stack.poll_next(poll, PollEvent::Received);
    assert_eq!(poll.step, receive);
    let (poll, _) = stack.poll_next(poll, PollEvent::Finished);
    assert_eq!(poll.step, PollStep::Iface { index: 0, phase: IfacePhase::FlushPending });
}

#[test]
fn link_state_edges_are_spotted() {
    let mut stack = stack_with_ifaces(1);
    let mut effects = Vec::new();
    for link_state in [LinkState::Down, LinkState::Up, LinkState::Up, LinkState::Down] {
        let mut poll = stack.poll(Instant::zero(), TIMEOUT);
        while poll.step != (PollStep::Iface { index: 0, phase: IfacePhase::LinkState }) {
            poll = stack.poll_next(poll, PollEvent::Finished).0;
        }
        effects.push(stack.poll_next(poll, PollEvent::Link(link_state)).1);
        let iface = stack.ifaces.get(0);
        assert_eq!(iface.last_link_state, link_state);
        assert_eq!(iface.may_solicit_routers(), link_state == LinkState::Up);
    }
    assert_eq!(
        effects,
        vec![
            PollEffect::Nothing,
            PollEffect::LinkChanged { restart: true },
            PollEffect::Nothing,
            PollEffect::LinkChanged { restart: false },
        ]
    );
}

#[test]
fn starved_senders_are_woken_once() {
    let mut stack = stack_with_ifaces(0);
    stack.set_tx_starved();
    let poll = stack.poll(Instant::zero(), TIMEOUT);
    assert_eq!(poll.step, PollStep::Wake);
    assert_eq!(stack.poll_next(poll, PollEvent::Finished).1, PollEffect::WakeSenders);
    assert_eq!(stack.poll_next(poll, PollEvent::Finished).1, PollEffect::Nothing);
}

#[test]
fn the_deadline_is_the_earliest_timer() {
    let mut stack = stack_with_ifaces(0);
    let poll = stack.poll(Instant::zero(), TIMEOUT);
    let (poll, _) = stack.poll_next(poll, PollEvent::Finished);
    let (poll, _) = stack.poll_next(poll, PollEvent::Deadline(Instant { micros: 30 }));
    let (poll, _) = stack.poll_next(poll, PollEvent::Deadline(Instant { micros: 10 }));
    let (poll, _) = stack.poll_next(poll, PollEvent::Deadline(Instant { micros: 20 }));
    let (poll, _) = stack.poll_next(poll, PollEvent::Finished);
    assert_eq!(poll.step, PollStep::Done);
    assert_eq!(poll.deadline, Instant { micros: 10 });
}

#[test]
fn the_deadline_covers_packets_that_wait() {
    let mut stack = stack_with_ifaces(0);
    let key = NeighborKey { iface: IfaceHandle::new(0), addr: Ipv4Address::new(10, 0, 0, 1).into() };
    assert_eq!(stack.pending.poll_at(TIMEOUT), Instant::never());
    for micros in [70, 50, 60] {
        stack.pending.push(key, vec![0x45], Instant { micros });
    }
    assert_eq!(stack.pending.poll_at(TIMEOUT), Instant { micros: 1050 });
    let run = |stack: &mut Stack, micros: i64| {
        let mut poll = stack.poll(Instant { micros }, TIMEOUT);
        while poll.step != PollStep::Done {
            poll = stack.poll_next(poll, PollEvent::Finished).0;
        }
        poll.deadline
    };
    // Nothing is dropped before the deadline, and a packet is at it.
    assert_eq!(run(&mut stack, 1049), Instant { micros: 1050 });
    assert_eq!(run(&mut stack, 1050), Instant { micros: 1060 });
    assert_eq!(run(&mut stack, 1070), Instant::never());
    assert!(!stack.pending.has_matching(&key));
}

#[test]
fn instants_saturate() {
    let span = Duration { micros: 10 };
    assert_eq!(Instant { micros: 5 }.after(span), Instant { micros: 15 });
    assert_eq!(Instant { micros: 5 }.before(span), Instant { micros: -5 });
    assert_eq!(Instant { micros: i64::MAX - 3 }.after(span), Instant::never());
    assert_eq!(Instant { micros: i64::MIN + 3 }.before(span), Instant::earliest());
    assert_eq!(Instant::earliest().after(Duration { micros: u64::MAX }), Instant::never());
}

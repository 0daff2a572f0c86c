use more_actors::protocol::{
    BufferChar, ButtonEvent, ButtonState, ButtonWire, Color, MpscEvent, MpscWire, MPSC_CAPACITY,
};
use more_actors::sim::{ButtonSim, MpscSim};

const FLIGHT: u64 = 100;
const CAP: usize = MPSC_CAPACITY;

fn sim_with_two_senders() -> MpscSim {
    let mut sim = MpscSim::new(FLIGHT);
    sim.add_sender(1, 1);
    sim.add_sender(2, 1);
    sim
}

fn send(sim: &mut MpscSim, conn: u64, ch: char) -> Vec<MpscEvent> {
    sim.handle(&MpscWire::Send { conn, ch }, conn)
}

fn receive(sim: &mut MpscSim) -> Vec<MpscEvent> {
    sim.handle(&MpscWire::Receive, 0)
}

#[test]
fn button_future_lifecycle() {
    let mut sim = ButtonSim::new();
    assert_eq!(sim.state, ButtonState::Idle);
    assert_eq!(
        sim.handle(&ButtonWire::Activate),
        vec![ButtonEvent::Activated]
    );
    assert_eq!(sim.state, ButtonState::Pending);
    assert_eq!(
        sim.handle(&ButtonWire::Press {
            color: Color::Green
        }),
        vec![ButtonEvent::Resolved {
            color: Color::Green
        }]
    );
    assert_eq!(sim.state, ButtonState::Ready(Color::Green));
    // a resolved future is consumed; activating creates a new one
    assert_eq!(
        sim.handle(&ButtonWire::Activate),
        vec![ButtonEvent::Activated]
    );
    // pressing while idle does nothing
    let mut idle = ButtonSim::new();
    assert!(idle
        .handle(&ButtonWire::Press { color: Color::Red })
        .is_empty());
}

#[test]
fn send_flies_then_lands_into_buffer() {
    let mut sim = sim_with_two_senders();
    let events = send(&mut sim, 1, 'a');
    assert_eq!(events, vec![MpscEvent::InFlight { conn: 1, ch: 'a' }]);
    // not landed yet
    assert!(sim.poll_due().is_empty());
    assert_eq!(sim.snapshot().in_flight, 1);
    assert!(sim.snapshot().buffer.is_empty());

    sim.advance(FLIGHT);
    let events = sim.poll_due();
    assert_eq!(events, vec![MpscEvent::Consumed { conn: 1, ch: 'a' }]);
    let snap = sim.snapshot();
    assert_eq!(snap.buffer, vec![BufferChar { ch: 'a', conn: 1 }]);
    assert_eq!(snap.in_flight, 0);
}

#[test]
fn full_buffer_blocks_sender_until_a_receive_wakes_it() {
    let mut sim = sim_with_two_senders();
    for (i, ch) in ('a'..).take(CAP).enumerate() {
        let conn = if i % 2 == 0 { 1 } else { 2 };
        send(&mut sim, conn, ch);
    }
    sim.advance(FLIGHT);
    let landed = sim.poll_due();
    assert_eq!(landed.len(), CAP);
    assert_eq!(sim.snapshot().buffer.len(), CAP);

    // sixth send blocks: no cosmetic event, state shows it
    let events = send(&mut sim, 1, 'z');
    assert!(events.is_empty());
    let snap = sim.snapshot();
    assert_eq!(snap.blocked_sends, vec![BufferChar { ch: 'z', conn: 1 }]);
    assert!(snap.senders.iter().find(|s| s.conn == 1).unwrap().blocked);

    // receive frees a slot and wakes exactly one blocked send
    let _ = receive(&mut sim);
    sim.advance(FLIGHT);
    let events = sim.poll_due();
    assert_eq!(events.len(), 1, "one unblocked send lands");

    let snap = sim.snapshot();
    assert!(snap.blocked_sends.is_empty());
    assert!(!snap.senders.iter().find(|s| s.conn == 1).unwrap().blocked);
    assert_eq!(snap.buffer.len(), CAP);
    assert!(snap.last_received.is_some());
}

#[test]
fn unblock_wake_order_is_fifo() {
    let mut sim = MpscSim::new(FLIGHT);
    sim.add_sender(1, 1);
    sim.add_sender(2, 1);
    sim.add_sender(3, 1);
    for i in 0..CAP {
        let ch = char::from_u32('a' as u32 + i as u32).unwrap();
        send(&mut sim, 1, ch);
    }
    sim.advance(FLIGHT);
    let _ = sim.poll_due();

    // two sends park, in this order
    send(&mut sim, 2, 'x');
    send(&mut sim, 3, 'y');
    assert_eq!(
        sim.snapshot()
            .blocked_sends
            .iter()
            .map(|b| b.ch)
            .collect::<Vec<_>>(),
        ['x', 'y'],
    );

    // tokio wakes parked senders in park order: 'x' before 'y'
    let mut woken = Vec::new();
    for _ in 0..2 {
        // the wake happens inside the receive that frees the slot
        for event in receive(&mut sim) {
            if let MpscEvent::InFlight { ch, .. } = event {
                woken.push(ch);
            }
        }
        sim.advance(FLIGHT);
        let _ = sim.poll_due();
    }
    assert_eq!(woken, ['x', 'y'], "parked sends wake FIFO, never randomly");
}

#[test]
fn receive_on_empty_channel_waits_and_bypasses_buffer() {
    let mut sim = sim_with_two_senders();
    let events = receive(&mut sim);
    assert!(events.is_empty());
    assert!(sim.snapshot().waiting_receive);

    send(&mut sim, 1, 'a');
    sim.advance(FLIGHT);
    let events = sim.poll_due();
    assert_eq!(events, vec![MpscEvent::Consumed { conn: 1, ch: 'a' }]);
    let snap = sim.snapshot();
    assert!(snap.buffer.is_empty(), "waiting receiver takes it directly");
    assert!(!snap.waiting_receive);
    assert_eq!(snap.last_received, Some(BufferChar { ch: 'a', conn: 1 }));
}

/// Regression: a second `recv()` while one is already parked used to
/// overwrite a single `waiting` flag, so one of the two receives was
/// silently lost. The core keeps the waiter, so both are served.
#[test]
fn concurrent_receives_are_queued_not_dropped() {
    let mut sim = sim_with_two_senders();
    receive(&mut sim);
    receive(&mut sim);
    assert!(sim.snapshot().waiting_receive);

    send(&mut sim, 1, 'a');
    send(&mut sim, 1, 'b');
    sim.advance(FLIGHT);
    let _ = sim.poll_due();

    // 'a' goes to the receive that was parked first (FIFO); 'b' is
    // taken by the second, which the old single-flag sim had discarded.
    let snap = sim.snapshot();
    assert_eq!(snap.last_received, Some(BufferChar { ch: 'b', conn: 1 }));
    assert!(
        snap.buffer.is_empty(),
        "neither value is stranded behind a lost receive"
    );
    assert!(!snap.waiting_receive, "both receives completed");
}

#[test]
fn clone_requires_a_handle_and_records_owner() {
    let mut sim = sim_with_two_senders();
    let events = sim.handle(&MpscWire::CloneSender { conn: 7 }, 1);
    assert_eq!(events, vec![MpscEvent::SenderJoined { conn: 7, owner: 1 }]);
    let snap = sim.snapshot();
    let clone = snap.senders.iter().find(|s| s.conn == 7).unwrap();
    assert_eq!(clone.owner, 1);

    // cloning from a connection that owns no handle is ignored
    assert!(sim
        .handle(&MpscWire::CloneSender { conn: 8 }, 99)
        .is_empty());
    assert!(!sim.contains_sender(8));
}

#[test]
fn disconnect_drops_handle_and_its_blocked_send() {
    let mut sim = sim_with_two_senders();
    for i in 0..CAP {
        send(&mut sim, 1, char::from_u32('a' as u32 + i as u32).unwrap());
    }
    sim.advance(FLIGHT);
    let _ = sim.poll_due();
    send(&mut sim, 2, 'z');
    assert_eq!(sim.snapshot().blocked_sends.len(), 1);

    let events = sim.remove_sender(2);
    assert_eq!(events, vec![MpscEvent::SenderLeft { conn: 2 }]);
    let snap = sim.snapshot();
    assert!(snap.blocked_sends.is_empty(), "blocked send discarded");
    assert!(!sim.contains_sender(2));
}

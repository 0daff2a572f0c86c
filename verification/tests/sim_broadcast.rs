use more_actors::protocol::{
    BroadcastError, BroadcastEvent, BroadcastWire, BufferChar, RxState, BROADCAST_CAPACITY,
};
use more_actors::sim::{BroadcastSim, BROADCAST_HOST_CONN};

fn bsend(sim: &mut BroadcastSim, conn: u64, ch: char) -> Vec<BroadcastEvent> {
    sim.handle(&BroadcastWire::Send { conn, ch }, conn)
}

/// Send from the host seed handle on behalf of the connection that owns
/// it (the presenter, once claimed).
fn host_send(sim: &mut BroadcastSim, owner: u64, ch: char) -> Vec<BroadcastEvent> {
    sim.handle(
        &BroadcastWire::Send {
            conn: BROADCAST_HOST_CONN,
            ch,
        },
        owner,
    )
}

fn subscribe(sim: &mut BroadcastSim, conn: u64) -> u64 {
    match &sim.handle(&BroadcastWire::Subscribe, conn)[..] {
        [BroadcastEvent::ReceiverAdded { receiver, owner }] => {
            assert_eq!(*owner, conn);
            *receiver
        }
        other => panic!("expected ReceiverAdded, got {other:?}"),
    }
}

fn recv(sim: &mut BroadcastSim, receiver: u64, conn: u64) -> Vec<BroadcastEvent> {
    sim.handle(&BroadcastWire::Receive { receiver }, conn)
}

fn rx(sim: &BroadcastSim, receiver: u64) -> RxState {
    *sim.snapshot()
        .receivers
        .iter()
        .find(|r| r.receiver == receiver)
        .unwrap()
}

#[test]
fn host_seed_exists_and_clone_is_owned_by_cloner() {
    let mut sim = BroadcastSim::new();
    assert!(sim.contains_sender(BROADCAST_HOST_CONN));

    // anyone may clone any sender; the clone belongs to the cloner
    let events = sim.handle(
        &BroadcastWire::CloneSender {
            source: BROADCAST_HOST_CONN,
        },
        7,
    );
    assert_eq!(
        events,
        vec![BroadcastEvent::SenderJoined { conn: 1, owner: 7 }]
    );
    assert!(sim.contains_sender(1));

    // a clone of a non-existent handle is ignored
    assert!(sim
        .handle(&BroadcastWire::CloneSender { source: 999 }, 7)
        .is_empty());
}

#[test]
fn send_never_blocks_and_evicts_oldest() {
    let mut sim = BroadcastSim::new();
    // tokio's send fails when no receiver is left, so the channel needs
    // one before values can flow
    subscribe(&mut sim, 9);
    let mut events = Vec::new();
    for ch in ('a'..).take(BROADCAST_CAPACITY + 2) {
        events.extend(bsend(&mut sim, BROADCAST_HOST_CONN, ch));
    }
    // 'a' and 'b' were evicted, in order
    let evicted: Vec<char> = events
        .iter()
        .filter_map(|e| match e {
            BroadcastEvent::Evicted { ch } => Some(*ch),
            _ => None,
        })
        .collect();
    assert_eq!(evicted, vec!['a', 'b']);
    let snap = sim.snapshot();
    let chars: Vec<char> = snap.buffer.iter().map(|b| b.ch).collect();
    assert_eq!(chars, vec!['c', 'd', 'e', 'f', 'g']);
    assert_eq!(snap.tail, 7);
}

/// tokio's `subscribe` starts a receiver at the tail: it sees only what
/// is sent afterwards, never the history still held in the ring.
#[test]
fn subscribe_mid_stream_starts_at_the_tail() {
    let mut sim = BroadcastSim::new();
    let early = subscribe(&mut sim, 9);
    for ch in 'a'..'d' {
        bsend(&mut sim, BROADCAST_HOST_CONN, ch);
    }
    let receiver = subscribe(&mut sim, 5);
    assert_eq!(rx(&sim, receiver).next, 4, "past every buffered value");

    // nothing to read yet: the recv arms and waits for the next send
    assert!(recv(&mut sim, receiver, 5).is_empty());
    assert!(rx(&sim, receiver).waiting);

    // the next send reaches it, and the buffered history never does
    let events = bsend(&mut sim, BROADCAST_HOST_CONN, 'z');
    assert!(events.contains(&BroadcastEvent::Received { receiver, ch: 'z' }));
    assert_eq!(rx(&sim, receiver).last.map(|b| b.ch), Some('z'));
    let _ = early;
}

#[test]
fn recv_advances_index_and_reports_last_value() {
    let mut sim = BroadcastSim::new();
    let receiver = subscribe(&mut sim, 4);
    for ch in 'a'..'d' {
        bsend(&mut sim, BROADCAST_HOST_CONN, ch);
    }
    let events = recv(&mut sim, receiver, 4);
    assert_eq!(events, vec![BroadcastEvent::Received { receiver, ch: 'a' }]);
    let state = rx(&sim, receiver);
    assert_eq!(state.last, Some(BufferChar { ch: 'a', conn: 0 }));
    assert_eq!(state.next, 2);

    let events = recv(&mut sim, receiver, 4);
    assert_eq!(events, vec![BroadcastEvent::Received { receiver, ch: 'b' }]);
    assert_eq!(rx(&sim, receiver).next, 3);
}

/// Lag now arises the way it does in tokio: subscribe at the tail, then
/// fall behind while the ring overwrites what you have not read.
#[test]
fn recv_yields_lagged_and_resumes_at_oldest() {
    let mut sim = BroadcastSim::new();
    let receiver = subscribe(&mut sim, 4);

    // capacity + 3 sends while the receiver reads nothing: the three
    // oldest values are evicted out from under it
    for ch in ('a'..).take(BROADCAST_CAPACITY + 3) {
        bsend(&mut sim, BROADCAST_HOST_CONN, ch);
    }

    let events = recv(&mut sim, receiver, 4);
    assert_eq!(events, vec![BroadcastEvent::Lagged { receiver, n: 3 }]);
    let state = rx(&sim, receiver);
    assert_eq!(state.lagged_total, 3);
    assert_eq!(state.error, Some(BroadcastError::Lagged(3)));

    // the next receive resumes at the oldest retained value, error cleared
    let events = recv(&mut sim, receiver, 4);
    assert_eq!(events, vec![BroadcastEvent::Received { receiver, ch: 'd' }]);
    assert!(rx(&sim, receiver).error.is_none());
}

#[test]
fn blocked_recv_completes_on_next_send() {
    let mut sim = BroadcastSim::new();
    let receiver = subscribe(&mut sim, 2); // empty channel: next == tail == 0

    // nothing new to receive: the recv blocks
    assert!(recv(&mut sim, receiver, 2).is_empty());
    assert!(rx(&sim, receiver).waiting);

    // the next send completes the blocked recv
    let events = bsend(&mut sim, BROADCAST_HOST_CONN, 'x');
    assert!(events.contains(&BroadcastEvent::Received { receiver, ch: 'x' }));
    let state = rx(&sim, receiver);
    assert!(!state.waiting);
    assert_eq!(
        state.next, 2,
        "armed at tail+1=1, received seq 1, next is 2"
    );
    assert_eq!(state.last, Some(BufferChar { ch: 'x', conn: 0 }));
}

#[test]
fn one_receiver_per_connection() {
    let mut sim = BroadcastSim::new();
    let first = subscribe(&mut sim, 2);
    assert!(sim.handle(&BroadcastWire::Subscribe, 2).is_empty());
    assert_eq!(sim.owned_receivers(2), vec![first]);
}

#[test]
fn foreign_receive_and_unsubscribe_are_ignored() {
    let mut sim = BroadcastSim::new();
    let receiver = subscribe(&mut sim, 2);
    assert!(recv(&mut sim, receiver, 99).is_empty());
    assert!(sim
        .handle(&BroadcastWire::Unsubscribe { receiver }, 99)
        .is_empty());
    assert_eq!(sim.owned_receivers(2), vec![receiver]);

    // the owner drops it
    let events = sim.handle(&BroadcastWire::Unsubscribe { receiver }, 2);
    assert_eq!(events, vec![BroadcastEvent::ReceiverRemoved { receiver }]);
}

#[test]
fn presenter_claim_transfers_host_sender() {
    let mut sim = BroadcastSim::new();
    assert_eq!(
        sim.owner_of_sender(BROADCAST_HOST_CONN),
        Some(BROADCAST_HOST_CONN)
    );

    sim.handle(&BroadcastWire::ClaimPresenter, 9);
    assert_eq!(sim.presenter(), Some(9));
    assert_eq!(sim.owner_of_sender(BROADCAST_HOST_CONN), Some(9));
    assert_eq!(sim.owned_senders(9), vec![BROADCAST_HOST_CONN]);
}

/// Regression: closing used to be checked before the buffer, so a
/// receiver holding unread values got `Closed` and the values were lost.
/// tokio drains what is retained first and only then reports closure.
#[test]
fn closed_channel_drains_buffered_values_first() {
    let mut sim = BroadcastSim::new();
    sim.handle(&BroadcastWire::ClaimPresenter, 1);
    let receiver = subscribe(&mut sim, 2);
    // the presenter owns the host handle once claimed, so it sends
    host_send(&mut sim, 1, 'a');
    host_send(&mut sim, 1, 'b');

    // the presenter leaves: every sender handle is gone
    sim.drop_connection(1);
    assert!(sim.snapshot().senders.is_empty());

    // the buffered values are still owed to the receiver
    let events = recv(&mut sim, receiver, 2);
    assert_eq!(events, vec![BroadcastEvent::Received { receiver, ch: 'a' }]);
    let events = recv(&mut sim, receiver, 2);
    assert_eq!(events, vec![BroadcastEvent::Received { receiver, ch: 'b' }]);

    // only once drained does the channel report itself closed
    assert!(recv(&mut sim, receiver, 2).is_empty());
    assert_eq!(rx(&sim, receiver).error, Some(BroadcastError::Closed));
}

#[test]
fn all_senders_dropped_closes_the_channel() {
    let mut sim = BroadcastSim::new();
    // presenter claims the host sender, a player clones it, then both
    // connections leave: no senders remain
    sim.handle(&BroadcastWire::ClaimPresenter, 9);
    let _ = sim.handle(&BroadcastWire::CloneSender { source: 0 }, 7);
    sim.handle(&BroadcastWire::CloneSender { source: 0 }, 7);

    sim.drop_connection(9); // presenter: host sender drops
    assert!(!sim.contains_sender(BROADCAST_HOST_CONN));
    sim.drop_connection(7); // last owner: channel closed

    assert!(sim.snapshot().senders.is_empty());
    let receiver = subscribe(&mut sim, 42);
    let _ = recv(&mut sim, receiver, 42);
    assert_eq!(
        rx(&sim, receiver).error,
        Some(BroadcastError::Closed),
        "receiving on a closed channel yields the error"
    );
}

#[test]
fn disconnect_drops_owned_handles_but_clones_of_others_survive() {
    let mut sim = BroadcastSim::new();
    // player 2 clones the host sender; the presenter (9) claims it
    let _ = sim.handle(&BroadcastWire::CloneSender { source: 0 }, 2);
    sim.handle(&BroadcastWire::ClaimPresenter, 9);
    assert_eq!(sim.owner_of_sender(0), Some(9));

    // player 2 leaves: its clone drops, the host sender stays
    sim.drop_connection(2);
    assert!(!sim.contains_sender(1));
    assert!(sim.contains_sender(BROADCAST_HOST_CONN));
    assert_eq!(sim.owner_of_sender(BROADCAST_HOST_CONN), Some(9));
}

#[test]
fn every_handle_is_listed_with_its_owner() {
    let mut sim = BroadcastSim::new();
    sim.handle(&BroadcastWire::CloneSender { source: BROADCAST_HOST_CONN }, 7);
    let host = (BROADCAST_HOST_CONN, BROADCAST_HOST_CONN);
    assert_eq!(sim.owned_senders_all(), vec![host, (1, 7)]);
    sim.handle(&BroadcastWire::ClaimPresenter, 9);
    assert_eq!(sim.owned_senders_all()[0], (BROADCAST_HOST_CONN, 9));
}

#[test]
fn leaving_spares_a_handle_that_merely_bears_the_number() {
    let mut sim = BroadcastSim::new();
    sim.handle(&BroadcastWire::CloneSender { source: BROADCAST_HOST_CONN }, 7);
    assert_eq!(sim.owner_of_sender(1), Some(7));
    assert_eq!(sim.drop_connection(1), vec![]);
    assert_eq!(sim.owner_of_sender(1), Some(7));
    assert!(!sim.drop_connection(7).is_empty());
    assert_eq!(sim.owner_of_sender(1), None);
}

#[test]
fn a_receiver_id_never_comes_back() {
    let mut sim = BroadcastSim::new();
    let first = subscribe(&mut sim, 2);
    sim.handle(&BroadcastWire::Unsubscribe { receiver: first }, 2);
    let second = subscribe(&mut sim, 2);
    sim.drop_connection(2);
    let third = subscribe(&mut sim, 3);
    assert!(first < second && second < third);
    let rx = rx(&sim, third);
    assert_eq!((rx.conn, rx.owner, rx.next), (3, 3, sim.snapshot().tail + 1));
    assert!(rx.last.is_none() && rx.error.is_none() && !rx.waiting);
    assert!(sim.handle(&BroadcastWire::Subscribe, 3).is_empty());
}

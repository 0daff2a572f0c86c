use more_actors::protocol::{WatchEvent, WatchWire};
use more_actors::sim::WatchSim;

/// Two-player sim: presenter is conn 1, a player is conn 2.
fn sim() -> WatchSim {
    let mut sim = WatchSim::new();
    sim.set_presenter(Some(1));
    sim
}

fn create(sim: &mut WatchSim) {
    assert_eq!(
        sim.handle(&WatchWire::Create { init: Some('c') }, 1),
        vec![WatchEvent::Created]
    );
}

/// Subscribes a receiver for `owner` and returns its id.
fn rx(sim: &mut WatchSim, owner: u64) -> u64 {
    match &sim.handle(&WatchWire::NewReceiver, owner)[..] {
        [WatchEvent::ReceiverAdded { id, .. }] => *id,
        other => panic!("expected ReceiverAdded, got {other:?}"),
    }
}

fn value(sim: &WatchSim) -> Option<char> {
    sim.snapshot().value
}

#[test]
fn create_phase_holds_until_presenter_creates_with_initial_value() {
    let mut sim = sim();
    assert!(!sim.snapshot().created);
    // no receivers before the channel exists
    assert!(sim.handle(&WatchWire::NewReceiver, 2).is_empty());
    // only the presenter may create
    assert!(sim
        .handle(&WatchWire::Create { init: Some('x') }, 2)
        .is_empty());
    create(&mut sim);
    let snap = sim.snapshot();
    assert!(snap.created);
    assert_eq!(snap.value, Some('c'));
    assert_eq!(snap.version, 0);
    // the channel is created once; a second create is ignored
    assert!(sim
        .handle(&WatchWire::Create { init: Some('y') }, 1)
        .is_empty());
}

#[test]
fn send_changes_value_and_bumps_version() {
    let mut sim = sim();
    create(&mut sim);
    let r = rx(&mut sim, 2);
    let events = sim.handle(&WatchWire::Send { ch: 'd' }, 1);
    assert_eq!(
        events,
        vec![WatchEvent::Changed {
            version: 1,
            ch: 'd'
        }]
    );
    let snap = sim.snapshot();
    assert_eq!(snap.value, Some('d'));
    assert_eq!(snap.version, 1);
    assert!(!snap.receivers.iter().find(|x| x.id == r).unwrap().awaiting);
}

#[test]
fn send_without_receivers_is_refused() {
    let mut sim = sim();
    create(&mut sim);
    assert_eq!(
        sim.handle(&WatchWire::Send { ch: 'd' }, 1),
        vec![WatchEvent::SendRefused]
    );
    assert_eq!(value(&sim), Some('c'));
    let events = sim.handle(&WatchWire::Send { ch: 'd' }, 1);
    assert_eq!(events, vec![WatchEvent::SendRefused]);
}

#[test]
fn send_is_presenter_only() {
    let mut sim = sim();
    create(&mut sim);
    rx(&mut sim, 2);
    assert!(sim.handle(&WatchWire::Send { ch: 'd' }, 2).is_empty());
    assert_eq!(value(&sim), Some('c'));
}

#[test]
fn equal_value_dedups_and_does_not_wake() {
    let mut sim = sim();
    create(&mut sim);
    let r = rx(&mut sim, 2);
    sim.handle(&WatchWire::AwaitChange { rx: r }, 2);
    assert!(sim.snapshot().receivers[0].awaiting);

    assert_eq!(
        sim.handle(&WatchWire::Send { ch: 'c' }, 1),
        vec![WatchEvent::SameValue]
    );
    let snap = sim.snapshot();
    assert_eq!(snap.version, 0, "dedup does not bump version");
    assert!(snap.receivers[0].awaiting, "nobody wakes on a dedup send");
}

#[test]
fn changed_waiting_wakes_on_next_different_value() {
    let mut sim = sim();
    create(&mut sim);
    let r1 = rx(&mut sim, 2);
    let r2 = rx(&mut sim, 3);
    sim.handle(&WatchWire::AwaitChange { rx: r1 }, 2);
    sim.handle(&WatchWire::AwaitChange { rx: r2 }, 3);
    assert!(sim.snapshot().receivers.iter().all(|r| r.awaiting));

    sim.handle(&WatchWire::Send { ch: 'd' }, 1);
    let snap = sim.snapshot();
    assert!(snap.receivers.iter().all(|r| !r.awaiting));
    assert!(snap.receivers.iter().all(|r| r.version == snap.version));
}

#[test]
fn changed_completes_immediately_when_already_stale() {
    let mut sim = sim();
    create(&mut sim);
    let r = rx(&mut sim, 2);
    sim.handle(&WatchWire::Send { ch: 'd' }, 1);
    sim.handle(&WatchWire::AwaitChange { rx: r }, 2);
    let snap = sim.snapshot();
    assert!(
        !snap.receivers[0].awaiting,
        "stale changed() resolves at once"
    );
    assert_eq!(snap.receivers[0].version, snap.version);
}

#[test]
fn sim_changed_can_be_cancelled() {
    let mut sim = sim();
    create(&mut sim);
    let r = rx(&mut sim, 2);
    sim.handle(&WatchWire::AwaitChange { rx: r }, 2);
    assert!(sim.snapshot().receivers[0].awaiting);
    sim.handle(&WatchWire::AwaitChange { rx: r }, 2);
    assert!(!sim.snapshot().receivers[0].awaiting);
}

#[test]
fn send_blocks_while_borrowing_then_flushes_on_release() {
    let mut sim = sim();
    create(&mut sim);
    let r = rx(&mut sim, 2);
    sim.handle(&WatchWire::LookInside { rx: r }, 2);
    assert!(sim.snapshot().receivers[0].borrowing);

    assert_eq!(
        sim.handle(&WatchWire::Send { ch: 'd' }, 1),
        vec![WatchEvent::SendBlocked]
    );
    let snap = sim.snapshot();
    assert_eq!(snap.pending_send, Some('d'));
    assert_eq!(value(&sim), Some('c'), "not committed while borrowed");

    assert_eq!(
        sim.handle(&WatchWire::LookInside { rx: r }, 2),
        vec![WatchEvent::Changed {
            version: 1,
            ch: 'd'
        }]
    );
    assert_eq!(value(&sim), Some('d'));
    assert_eq!(sim.snapshot().pending_send, None);
}

#[test]
fn multiple_borrows_delay_send_until_all_released() {
    let mut sim = sim();
    create(&mut sim);
    let r1 = rx(&mut sim, 2);
    let r2 = rx(&mut sim, 3);
    sim.handle(&WatchWire::LookInside { rx: r1 }, 2);
    sim.handle(&WatchWire::LookInside { rx: r2 }, 3);
    sim.handle(&WatchWire::Send { ch: 'd' }, 1);
    assert_eq!(sim.snapshot().pending_send, Some('d'));

    // releasing only one keeps it pending
    assert!(sim.handle(&WatchWire::LookInside { rx: r1 }, 2).is_empty());
    assert_eq!(sim.snapshot().pending_send, Some('d'));

    assert_eq!(
        sim.handle(&WatchWire::LookInside { rx: r2 }, 3),
        vec![WatchEvent::Changed {
            version: 1,
            ch: 'd'
        }]
    );
    assert_eq!(sim.snapshot().pending_send, None);
}

#[test]
fn dropping_last_borrower_flushes_pending_send() {
    let mut sim = sim();
    create(&mut sim);
    // a second, non-borrowing receiver survives the drop so the pending
    // send can resolve against remaining receivers
    let _survivor = rx(&mut sim, 3);
    let r = rx(&mut sim, 2);
    sim.handle(&WatchWire::LookInside { rx: r }, 2);
    sim.handle(&WatchWire::Send { ch: 'd' }, 1);
    assert_eq!(
        sim.handle(&WatchWire::DropReceiver { rx: r }, 2),
        vec![
            WatchEvent::ReceiverRemoved { id: r },
            WatchEvent::Changed {
                version: 1,
                ch: 'd'
            }
        ]
    );
    assert_eq!(value(&sim), Some('d'));
}

#[test]
fn pending_send_refused_when_all_receivers_disappear() {
    let mut sim = sim();
    create(&mut sim);
    let r = rx(&mut sim, 2);
    sim.handle(&WatchWire::LookInside { rx: r }, 2);
    sim.handle(&WatchWire::Send { ch: 'd' }, 1);
    assert_eq!(
        sim.handle(&WatchWire::DropReceiver { rx: r }, 2),
        vec![
            WatchEvent::ReceiverRemoved { id: r },
            WatchEvent::SendRefused
        ]
    );
    assert_eq!(value(&sim), Some('c'));
}

#[test]
fn send_while_pending_is_ignored() {
    let mut sim = sim();
    create(&mut sim);
    let r = rx(&mut sim, 2);
    sim.handle(&WatchWire::LookInside { rx: r }, 2);
    sim.handle(&WatchWire::Send { ch: 'd' }, 1);
    assert!(
        sim.handle(&WatchWire::Send { ch: 'e' }, 1).is_empty(),
        "second send dropped"
    );
    assert_eq!(sim.snapshot().pending_send, Some('d'));
}

#[test]
fn clone_copies_seen_version_but_not_awaiting() {
    let mut sim = sim();
    create(&mut sim);
    let r = rx(&mut sim, 2);
    // player 2 awaits at the *current* version (not stale), so it blocks
    sim.handle(&WatchWire::AwaitChange { rx: r }, 2);
    assert!(sim.snapshot().receivers[0].awaiting);
    // presenter (1) clones it: fresh handle, no awaiting, same seen version
    let events = sim.handle(&WatchWire::CloneReceiver { rx: r }, 1);
    let id = match events[0] {
        WatchEvent::ReceiverAdded { id, owner } => {
            assert_eq!(owner, 1);
            id
        }
        ref other => panic!("expected ReceiverAdded, got {other:?}"),
    };
    let snap = sim.snapshot();
    let clone = snap.receivers.iter().find(|x| x.id == id).unwrap();
    assert_eq!(
        clone.version, snap.version,
        "clone starts at the source's seen version"
    );
    assert!(!clone.awaiting);
    assert!(!clone.borrowing);

    // a send wakes the source receiver only; the clone stays behind until
    // *it* calls changed() again
    sim.handle(&WatchWire::Send { ch: 'd' }, 1);
    let snap = sim.snapshot();
    let src = snap.receivers.iter().find(|x| x.id == r).unwrap();
    assert!(!src.awaiting, "source was waiting on changed() and woke");
    assert_eq!(src.version, snap.version);
    let clone = snap.receivers.iter().find(|x| x.id == id).unwrap();
    assert_eq!(clone.version, 0, "clone has not caught up");

    // cloning an unknown receiver does nothing
    assert!(sim
        .handle(&WatchWire::CloneReceiver { rx: 999 }, 1)
        .is_empty());
}

#[test]
fn foreign_rx_operations_are_ignored() {
    let mut sim = sim();
    create(&mut sim);
    let r = rx(&mut sim, 2);
    // another player cannot await, borrow or drop conn 2's receiver
    assert!(sim.handle(&WatchWire::AwaitChange { rx: r }, 3).is_empty());
    assert!(sim.handle(&WatchWire::LookInside { rx: r }, 3).is_empty());
    assert!(sim.handle(&WatchWire::DropReceiver { rx: r }, 3).is_empty());
    assert_eq!(sim.snapshot().receivers.len(), 1);
}

#[test]
fn owned_by_lists_only_that_connection() {
    let mut sim = sim();
    create(&mut sim);
    rx(&mut sim, 2);
    rx(&mut sim, 2);
    rx(&mut sim, 3);
    let owned = sim.owned_by(2);
    assert_eq!(owned.len(), 2);
    assert!(sim.owned_by(1).is_empty());
    assert_eq!(sim.owned_by(3).len(), 1);
}

#[test]
fn a_dropped_id_never_comes_back() {
    let mut sim = WatchSim::new();
    sim.set_presenter(Some(1));
    sim.handle(&WatchWire::Create { init: Some('a') }, 1);
    sim.handle(&WatchWire::NewReceiver, 2);
    sim.handle(&WatchWire::NewReceiver, 2);
    sim.handle(&WatchWire::DropReceiver { rx: 2 }, 2);
    sim.handle(&WatchWire::Send { ch: 'b' }, 1);
    sim.handle(&WatchWire::CloneReceiver { rx: 1 }, 3);
    let snapshot = sim.snapshot();
    let ids: Vec<u64> = snapshot.receivers.iter().map(|rx| rx.id).collect();
    assert_eq!(ids, [1, 3]);
    assert_eq!(snapshot.version, 1);
    assert!(sim.handle(&WatchWire::Send { ch: 'c' }, 2).is_empty());
    assert!(sim.handle(&WatchWire::DropReceiver { rx: 1 }, 3).is_empty());
    assert_eq!(sim.snapshot(), snapshot);
}

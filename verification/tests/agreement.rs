//! The game drivers next to the bare channels, through the same operations.

use more_actors::channels::broadcast::{BroadcastCore, BroadcastPoll};
use more_actors::channels::mpsc::{MpscCore, SendOffer};
use more_actors::channels::oneshot::OneshotCore;
use more_actors::channels::watch::{self as watch_channel, ChangePoll, WatchCore};
use more_actors::protocol::{
    BroadcastEvent, BroadcastWire, BufferChar, ButtonState, ButtonWire, Color, MpscWire, WatchWire,
    BROADCAST_CAPACITY, MPSC_CAPACITY,
};
use more_actors::sim::{BroadcastSim, ButtonSim, MpscSim, WatchSim, BROADCAST_HOST_CONN};

#[test]
fn the_mpsc_game_agrees_with_the_channel() {
    let mut sim = MpscSim::new(100);
    let mut core: MpscCore<BufferChar> = MpscCore::new(MPSC_CAPACITY);
    for ch in ('a'..).take(MPSC_CAPACITY + 1) {
        let conn = u64::from(ch as u32);
        sim.add_sender(conn, conn);
        core.add_sender();
        sim.handle(&MpscWire::Send { conn, ch }, conn);
        let offer = core.offer_send(BufferChar { ch, conn });
        let full = ch as usize == 'a' as usize + MPSC_CAPACITY;
        assert_eq!(matches!(offer, SendOffer::Blocked { .. }), full);
    }
    let snap = sim.snapshot();
    assert_eq!(snap.blocked_sends.len(), core.blocked_len());
    assert_eq!(core.blocked(0).1, Some(&snap.blocked_sends[0]));
    assert_eq!(snap.buffer.len() + snap.in_flight, core.len());
    sim.advance(100);
    sim.poll_due();
    sim.handle(&MpscWire::Receive, 0);
    let taken = core.try_recv();
    assert_eq!(sim.snapshot().last_received, taken.ok());
    assert!(sim.snapshot().blocked_sends.is_empty());
    assert_eq!(core.len(), MPSC_CAPACITY);
}

#[test]
fn the_broadcast_game_agrees_with_the_channel() {
    let mut sim = BroadcastSim::new();
    let mut core: BroadcastCore<BufferChar> = BroadcastCore::new(BROADCAST_CAPACITY);
    let rx = match &sim.handle(&BroadcastWire::Subscribe, 3)[..] {
        [BroadcastEvent::ReceiverAdded { receiver, .. }] => *receiver,
        other => panic!("expected ReceiverAdded, got {other:?}"),
    };
    let slot = core.subscribe();
    let conn = BROADCAST_HOST_CONN;
    for ch in ('a'..).take(BROADCAST_CAPACITY + 2) {
        sim.handle(&BroadcastWire::Send { conn, ch }, conn);
        assert!(core.send(BufferChar { ch, conn }).is_ok());
    }
    let ring: Vec<BufferChar> = core.ring().iter().map(|(_, value)| *value).collect();
    assert_eq!(sim.snapshot().buffer, ring);
    assert_eq!(sim.snapshot().tail, core.next_seq());
    let lagged = sim.handle(&BroadcastWire::Receive { receiver: rx }, 3);
    assert_eq!(lagged, vec![BroadcastEvent::Lagged { receiver: rx, n: 2 }]);
    assert_eq!(core.poll_recv(slot), BroadcastPoll::Lagged { skipped: 2 });
    sim.handle(&BroadcastWire::Receive { receiver: rx }, 3);
    assert_eq!(core.poll_recv(slot), BroadcastPoll::Value(BufferChar { ch: 'c', conn }));
    let at = sim.snapshot().receivers[0];
    assert_eq!(at.last, Some(BufferChar { ch: 'c', conn }));
    assert_eq!(Some(at.next), core.receiver_seq(slot).map(|seen| seen + 1));
}

#[test]
fn the_button_game_agrees_with_the_channel() {
    let mut sim = ButtonSim::new();
    let mut core: OneshotCore<Color> = OneshotCore::new();
    sim.handle(&ButtonWire::Activate);
    assert_eq!(sim.state, ButtonState::Pending);
    assert!(!core.has_value());
    sim.handle(&ButtonWire::Press { color: Color::Blue });
    assert_eq!(core.send(Color::Blue), Ok(()));
    assert!(core.has_value());
    assert_eq!(sim.state, ButtonState::Ready(Color::Blue));
    sim.handle(&ButtonWire::Press { color: Color::Red });
    assert!(core.send(Color::Red).is_err());
    assert_eq!(sim.state, ButtonState::Ready(Color::Blue));
    assert_eq!(core.try_recv(), Ok(Color::Blue));
    assert!(!core.has_value());
}

/// The game's receivers stand where the channel's `ids` stand.
fn assert_same(sim: &WatchSim, core: &WatchCore<Option<char>>, ids: &[u64]) {
    let snap = sim.snapshot();
    assert_eq!(snap.value, *core.value());
    assert_eq!(snap.version, core.version());
    assert_eq!(snap.receivers.len(), core.receiver_count());
    let guards = snap.receivers.iter().filter(|rx| rx.borrowing).count();
    assert_eq!(guards, core.readers());
    let pending: Vec<Option<char>> = core.pending_values().into_iter().copied().collect();
    let shown: Vec<Option<char>> = snap.pending_send.iter().map(|ch| Some(*ch)).collect();
    assert_eq!(shown, pending);
    for (rx, id) in snap.receivers.iter().zip(ids) {
        assert_eq!(Some(rx.version), core.receiver_version(*id));
        assert_eq!(rx.awaiting, core.is_awaiting(*id));
    }
}

#[test]
fn the_watch_game_agrees_with_the_channel() {
    let mut sim = WatchSim::new();
    assert!(!sim.has_channel());
    sim.set_presenter(Some(1));
    sim.handle(&WatchWire::Create { init: Some('a') }, 1);
    assert!(sim.has_channel());
    let mut core = WatchCore::new(Some('a'));
    core.drop_receiver(1);
    assert_same(&sim, &core, &[]);

    sim.handle(&WatchWire::Send { ch: 'x' }, 1);
    assert_eq!(core.send(Some('x')), watch_channel::SendOffer::Rejected(Some('x')));
    assert_same(&sim, &core, &[]);

    sim.handle(&WatchWire::NewReceiver, 2);
    sim.handle(&WatchWire::NewReceiver, 3);
    let ids = [core.subscribe(), core.subscribe()];
    assert_same(&sim, &core, &ids);

    sim.handle(&WatchWire::AwaitChange { rx: 1 }, 2);
    assert!(matches!(core.poll_changed(ids[0]), ChangePoll::Blocked { .. }));
    sim.handle(&WatchWire::LookInside { rx: 2 }, 3);
    core.begin_borrow();
    assert_same(&sim, &core, &ids);

    sim.handle(&WatchWire::Send { ch: 'b' }, 1);
    let waiter = match core.send(Some('b')) {
        watch_channel::SendOffer::Blocked { waiter } => waiter,
        other => panic!("expected Blocked, got {other:?}"),
    };
    assert_same(&sim, &core, &ids);

    sim.handle(&WatchWire::DropReceiver { rx: 2 }, 3);
    core.drop_receiver(ids[1]);
    core.end_borrow();
    assert_eq!(core.poll_send(waiter), watch_channel::SendPoll::Sent);
    assert_same(&sim, &core, &ids[..1]);
    assert_eq!(sim.snapshot().value, Some('b'));
    assert_eq!(sim.snapshot().receivers[0].version, 1);

    sim.handle(&WatchWire::CloneReceiver { rx: 1 }, 4);
    let clone = core.clone_receiver(ids[0]);
    assert_eq!(clone, Some(ids[1]), "the freed id is recycled");
    assert_same(&sim, &core, &ids);
}

#[test]
fn a_pending_send_of_the_current_value_is_dropped_by_the_game_alone() {
    let mut sim = WatchSim::new();
    sim.set_presenter(Some(1));
    sim.handle(&WatchWire::Create { init: Some('a') }, 1);
    sim.handle(&WatchWire::NewReceiver, 1);
    sim.handle(&WatchWire::LookInside { rx: 1 }, 1);
    sim.handle(&WatchWire::Send { ch: 'a' }, 1);
    sim.handle(&WatchWire::LookInside { rx: 1 }, 1);
    assert_eq!(sim.snapshot().version, 0);
    assert_eq!(sim.snapshot().pending_send, None);

    let mut core = WatchCore::new('a');
    core.begin_borrow();
    assert!(matches!(core.send('a'), watch_channel::SendOffer::Blocked { .. }));
    core.end_borrow();
    assert_eq!(core.version(), 1);
}

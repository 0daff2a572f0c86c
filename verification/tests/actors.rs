use more_actors::channels::Round;
use more_actors::channels::mpsc::MpscCore;
use more_actors::protocol::{
    AppUp, BroadcastError, BroadcastEvent, BroadcastSnapshot, BroadcastWire, ButtonEvent,
    ButtonState, ButtonWire, Color, Game, LoopSelectEvent, LoopSelectWire, MpscEvent, MpscSnapshot,
    MpscWire, Role, SelectEvent, SelectWire, TimerEvent, TimerSnapshot, TimerWire, WatchEvent,
    WatchWire, Won, PLAYER_TICKETS, SLIDE_COUNT,
};
use more_actors::server::auth::{ConnIds, Identity};
use more_actors::server::broadcast::{self, BroadcastMsg, BroadcastService, BroadcastSocket};
use more_actors::server::button::{self, ButtonMsg, ButtonService, ButtonSocket};
use more_actors::server::mpsc::{MpscMsg, MpscReply, MpscService, MpscSocket};
use more_actors::server::plane::{
    app_down, attend, generated_key, is_dead_peer, is_keepalive, join_url, presenter_key, rule,
    AppAction, PlaneAction, PlaneEvent,
};
use more_actors::server::session::{Client, Phase, Session, SocketAction, SocketEvent};
use more_actors::server::supervisor::{supervise, SupervisorAction, SupervisorEvent};
use more_actors::server::ticking::{TickMsg, TickingGame, TickingService, TickingSocket};
use more_actors::server::tickets::{ticket_text, Headcount, Issue, Pool};
use more_actors::server::watch::{self, WatchMsg, WatchReply, WatchService, WatchSocket};
use more_actors::sim::{
    BroadcastSim, LoopSelectSim, MpscSim, SelectSim, TimerSim, WatchSim,
};

fn mpsc_snapshot(events: &[MpscEvent]) -> MpscSnapshot {
    match events.last() {
        Some(MpscEvent::Snapshot { state }) => state.clone(),
        other => panic!("expected a snapshot last, got {other:?}"),
    }
}

fn broadcast_snapshot(events: &[BroadcastEvent]) -> BroadcastSnapshot {
    match events.last() {
        Some(BroadcastEvent::Snapshot { state }) => state.clone(),
        other => panic!("expected a snapshot last, got {other:?}"),
    }
}

fn timer_snapshot(event: &TimerEvent) -> TimerSnapshot {
    match event {
        TimerEvent::Snapshot { state } => *state,
        other => panic!("expected a snapshot, got {other:?}"),
    }
}

#[test]
fn a_spectator_cannot_send() {
    let mut ids = ConnIds::new();
    let mut actor = MpscService::default();
    let player = MpscSocket::new(ids.next_conn(), Role::Player);
    actor.handle(&player.join().expect("joins"), &mut ids);
    let spectator = MpscSocket::new(ids.next_conn(), Role::Spectator);
    let (_, events) = actor.handle(&spectator.join().expect("joins"), &mut ids);
    assert_eq!(mpsc_snapshot(&events).senders.len(), 2);

    // registered as a sender, but not heard
    let wire = MpscWire::Send { conn: spectator.conn, ch: 'x' };
    assert_eq!(spectator.on_wire(&wire), None);

    let wire = MpscWire::Send { conn: player.conn, ch: 'p' };
    let msg = player.on_wire(&wire).expect("a player may send");
    assert_eq!(actor.park(0), None, "nothing in the air yet");
    actor.handle(&msg, &mut ids);
    assert_eq!(actor.park(100), Some(600));
    let events = actor.wake(700);
    assert_eq!(events[0], MpscEvent::Consumed { conn: player.conn, ch: 'p' });
    let sent: Vec<char> = mpsc_snapshot(&events).buffer.iter().map(|value| value.ch).collect();
    assert_eq!(sent, vec!['p'], "only the player's value should have landed");
}

#[test]
fn foreign_handles_cannot_be_sent_from() {
    let socket = MpscSocket::new(3, Role::Player);
    assert_eq!(socket.on_wire(&MpscWire::Send { conn: 4, ch: 'x' }), None);
    assert_eq!(
        socket.on_wire(&MpscWire::Send { conn: 3, ch: 'x' }),
        Some(MpscMsg::Send { conn: 3, ch: 'x' })
    );
    assert_eq!(socket.on_wire(&MpscWire::ClaimPresenter), None);
    assert_eq!(socket.on_wire(&MpscWire::Receive), Some(MpscMsg::Receive));
}

#[test]
fn only_the_presenter_clones_and_leaving_drops_the_clones() {
    let mut ids = ConnIds::new();
    let mut actor = MpscService::default();
    let mut socket = MpscSocket::new(ids.next_conn(), Role::Presenter);
    actor.handle(&socket.join().expect("joins"), &mut ids);
    let ask = socket.on_wire(&MpscWire::CloneSender { conn: 0 }).expect("may play");
    assert_eq!(actor.handle(&ask, &mut ids), (MpscReply::Cloned(None), vec![]));
    let claim = socket.on_wire(&MpscWire::ClaimPresenter).expect("may present");
    assert_eq!(actor.handle(&claim, &mut ids), (MpscReply::Nothing, vec![]));
    let (reply, events) = actor.handle(&ask, &mut ids);
    assert_eq!(reply, MpscReply::Cloned(Some(2)));
    assert_eq!(events[0], MpscEvent::SenderJoined { conn: 2, owner: 1 });
    socket.cloned(Some(2));
    assert_eq!(socket.owned, vec![1, 2]);
    assert_eq!(
        socket.on_wire(&MpscWire::Send { conn: 2, ch: 'c' }),
        Some(MpscMsg::Send { conn: 2, ch: 'c' })
    );

    for msg in socket.close() {
        actor.handle(&msg, &mut ids);
    }
    let (reply, events) = actor.handle(&MpscMsg::Get, &mut ids);
    assert!(events.is_empty());
    match reply {
        MpscReply::State(state) => assert!(state.senders.is_empty()),
        other => panic!("expected the state, got {other:?}"),
    }
    // the slot left with its holder
    let late = MpscSocket::new(ids.next_conn(), Role::Presenter);
    actor.handle(&late.join().expect("joins"), &mut ids);
    let ask = late.on_wire(&MpscWire::CloneSender { conn: 0 }).expect("may play");
    assert_eq!(actor.handle(&ask, &mut ids).0, MpscReply::Cloned(None));
    assert!(actor.has_room());
}

#[test]
fn an_unblocked_send_is_announced() {
    let mut ids = ConnIds::new();
    let mut actor = MpscService::default();
    actor.handle(&MpscMsg::AddSender { conn: 1, owner: 1 }, &mut ids);
    for ch in 'a'..='f' {
        actor.handle(&MpscMsg::Send { conn: 1, ch }, &mut ids);
    }
    actor.wake(700);
    let (_, events) = actor.handle(&MpscMsg::Receive, &mut ids);
    assert_eq!(events[0], MpscEvent::InFlight { conn: 1, ch: 'f' });
    assert_eq!(mpsc_snapshot(&events).last_received.map(|value| value.ch), Some('a'));
}

#[test]
fn a_player_cannot_seize_the_presenter_slot() {
    let mut actor = BroadcastService::default();
    let claim = broadcast::on_wire(Role::Presenter, 1, &BroadcastWire::ClaimPresenter);
    let (_, events) = actor.handle(&claim.expect("may present"));
    assert_eq!(broadcast_snapshot(&events).presenter, Some(1));

    assert_eq!(broadcast::on_wire(Role::Player, 2, &BroadcastWire::ClaimPresenter), None);
    let subscribe = broadcast::on_wire(Role::Player, 2, &BroadcastWire::Subscribe);
    let (_, events) = actor.handle(&subscribe.expect("may play"));
    let snap = broadcast_snapshot(&events);
    assert_eq!(snap.receivers.len(), 1);
    assert_eq!(snap.presenter, Some(1), "the slot stayed with the real presenter");
}

#[test]
fn broadcast_subscriber_starts_at_the_tail() {
    let mut actor = BroadcastService::default();
    actor.handle(&BroadcastMsg::Claim { conn: 1 });
    actor.handle(&BroadcastMsg::Subscribe { conn: 2 });
    for ch in ['a', 'b', 'c'] {
        actor.handle(&BroadcastMsg::Send { conn: 1, handle: 0, ch });
    }
    let (_, events) = actor.handle(&BroadcastMsg::Subscribe { conn: 3 });
    let snap = broadcast_snapshot(&events);
    assert_eq!(snap.tail, 3, "three values were accepted");
    let rx = snap.receivers.iter().find(|r| r.owner == 3).expect("our receiver");
    assert_eq!(rx.next, snap.tail + 1);
    assert_eq!(snap.buffer.len(), 3, "the history is still in the ring");
}

#[test]
fn buffered_values_outlive_the_last_sender() {
    let mut actor = BroadcastService::default();
    actor.handle(&BroadcastMsg::Claim { conn: 1 });
    actor.handle(&BroadcastMsg::Subscribe { conn: 2 });
    let (state, events) = actor.handle(&BroadcastMsg::Get);
    assert!(events.is_empty());
    let receiver = state.expect("the state").receivers[0].receiver;
    for ch in ['x', 'y'] {
        actor.handle(&BroadcastMsg::Send { conn: 1, handle: 0, ch });
    }
    let (_, events) = actor.handle(&BroadcastMsg::DropConnection { conn: 1 });
    assert!(broadcast_snapshot(&events).senders.is_empty());

    for ch in ['x', 'y'] {
        let (_, events) = actor.handle(&BroadcastMsg::Receive { conn: 2, receiver });
        assert_eq!(events[0], BroadcastEvent::Received { receiver, ch });
    }
    let (_, events) = actor.handle(&BroadcastMsg::Receive { conn: 2, receiver });
    let snap = broadcast_snapshot(&events);
    assert_eq!(snap.receivers[0].error, Some(BroadcastError::Closed));
    let (_, events) = actor.handle(&BroadcastMsg::Unsubscribe { conn: 2, receiver });
    assert!(broadcast_snapshot(&events).receivers.is_empty());
    assert!(actor.has_room());
}

#[test]
fn broadcast_spectators_are_not_heard() {
    for wire in [
        BroadcastWire::Subscribe,
        BroadcastWire::ClaimPresenter,
        BroadcastWire::Send { conn: 0, ch: 'x' },
        BroadcastWire::CloneSender { source: 0 },
    ] {
        assert_eq!(broadcast::on_wire(Role::Spectator, 9, &wire), None);
    }
    assert_eq!(
        broadcast::on_wire(Role::Player, 9, &BroadcastWire::CloneSender { source: 0 }),
        Some(BroadcastMsg::Clone { requester: 9, source: 0 })
    );
}

#[test]
fn the_watch_actor_answers_clones_and_cleans_up() {
    let mut actor = WatchService::default();
    let claim = watch::on_wire(Role::Presenter, 1, &WatchWire::ClaimPresenter);
    actor.handle(&claim.expect("may present"));
    actor.handle(&WatchMsg::Create { conn: 1, init: Some('a') });
    let (_, events) = actor.handle(&WatchMsg::NewReceiver { conn: 2 });
    assert_eq!(events[0], WatchEvent::ReceiverAdded { id: 1, owner: 2 });

    // a stranger may not clone it, its owner and the presenter may
    let ask = |requester| WatchMsg::CloneReceiver { requester, rx: 1 };
    assert_eq!(actor.handle(&ask(3)), (WatchReply::Cloned(None), vec![]));
    assert_eq!(actor.handle(&ask(2)).0, WatchReply::Cloned(Some(2)));
    assert_eq!(actor.handle(&ask(1)).0, WatchReply::Cloned(Some(3)));
    // there is no such receiver
    let missing = WatchMsg::CloneReceiver { requester: 1, rx: 9 };
    assert_eq!(actor.handle(&missing).0, WatchReply::Cloned(None));

    let owned = match actor.handle(&WatchMsg::Owned { conn: 2 }).0 {
        WatchReply::Owned(ids) => ids,
        other => panic!("expected ids, got {other:?}"),
    };
    assert_eq!(owned, vec![1, 2]);
    for msg in watch::close(2, &owned) {
        actor.handle(&msg);
    }
    match actor.handle(&WatchMsg::Get).0 {
        WatchReply::State(state) => {
            assert_eq!(state.receivers.len(), 1);
            assert_eq!(state.receivers[0].owner, 1);
            assert_eq!(state.presenter, Some(1), "somebody else's slot stays");
        }
        other => panic!("expected the state, got {other:?}"),
    }
    let (_, events) = actor.handle(&WatchMsg::ReleasePresenter { conn: 1 });
    match &events[..] {
        [WatchEvent::Snapshot { state }] => assert_eq!(state.presenter, None),
        other => panic!("expected one snapshot, got {other:?}"),
    }
    assert!(actor.handle(&WatchMsg::ReleasePresenter { conn: 1 }).1.is_empty());
    assert!(actor.has_room());
}

#[test]
fn the_watch_sockets_know_their_roles() {
    assert_eq!(watch::on_wire(Role::Spectator, 5, &WatchWire::NewReceiver), None);
    assert_eq!(watch::on_wire(Role::Player, 5, &WatchWire::ClaimPresenter), None);
    assert_eq!(
        watch::on_wire(Role::Player, 5, &WatchWire::LookInside { rx: 2 }),
        Some(WatchMsg::LookInside { conn: 5, rx: 2 })
    );
}

#[test]
fn the_button_actor_resolves_once() {
    let mut actor = ButtonService::default();
    assert_eq!(actor.handle(&ButtonMsg::Get), (Some(ButtonState::Idle), vec![]));
    let activate = button::on_wire(Role::Player, &ButtonWire::Activate).expect("may play");
    assert_eq!(actor.handle(&activate).1, vec![ButtonEvent::Activated]);
    let press = ButtonMsg::Press { color: Color::Blue };
    assert_eq!(actor.handle(&press).1, vec![ButtonEvent::Resolved { color: Color::Blue }]);
    assert!(actor.handle(&ButtonMsg::Press { color: Color::Red }).1.is_empty());
    assert_eq!(actor.handle(&ButtonMsg::Get).0, Some(ButtonState::Ready(Color::Blue)));
    assert_eq!(button::on_wire(Role::Spectator, &ButtonWire::Activate), None);
}

#[test]
fn a_joiner_gets_the_timer_state_immediately() {
    let actor = TickingService::<TimerSim>::new(0);
    let state = timer_snapshot(&actor.get());
    assert!(!state.pending);
    assert_eq!(state.waited_ms, None);
    assert_eq!(<TimerSim as TickingGame>::name(), "timer");
    assert_eq!(<SelectSim as TickingGame>::name(), "select");
    assert_eq!(<LoopSelectSim as TickingGame>::name(), "loop-select");
}

#[test]
fn the_timer_actor_wakes_itself_and_resolves() {
    let mut actor = TickingService::<TimerSim>::new(0);
    assert!(actor.fits(3_000) && actor.has_room());
    let (reply, events) = actor.handle(&TickMsg::Wire(TimerWire::Activate), 3_000);
    assert_eq!(reply, None);
    assert_eq!(events[0], TimerEvent::Activated { waiting_ms: 7_000 });
    assert!(timer_snapshot(&events[1]).pending);
    assert_eq!(actor.park(4_000), Some(6_000));
    assert!(actor.wake(9_999).is_empty(), "woken too early");
    let events = actor.wake(10_000);
    assert_eq!(events[0], TimerEvent::Resolved { waited_ms: 7_000 });
    let state = timer_snapshot(&events[1]);
    assert!(!state.pending);
    assert_eq!(state.waited_ms, Some(7_000));
    assert_eq!(actor.park(10_000), None);
}

#[test]
fn a_late_wire_is_not_applied_to_a_stale_sim() {
    let mut actor = TickingService::<TimerSim>::new(0);
    actor.on_wire(&TimerWire::Activate, 3_000);
    // the deadline passed while the actor was parked
    let events = actor.on_wire(&TimerWire::Cancel, 12_000);
    assert_eq!(events[0], TimerEvent::Resolved { waited_ms: 7_000 });
    assert_eq!(events.len(), 2, "nothing was left to cancel");
}

#[test]
fn dropping_the_future_stops_the_actor_from_firing() {
    let mut actor = TickingService::<TimerSim>::new(0);
    actor.on_wire(&TimerWire::Activate, 3_000);
    let events = actor.on_wire(&TimerWire::Cancel, 4_000);
    assert_eq!(events[0], TimerEvent::Cancelled);
    let snapshot = timer_snapshot(&events[1]);
    assert!(!snapshot.pending, "the dropped future is gone");
    assert_eq!(snapshot.remaining_ms, None);
    assert_eq!(actor.park(5_000), None);
    assert!(actor.wake(60_000).is_empty());
}

#[test]
fn a_spectator_may_watch_the_timer_but_not_drive_it() {
    let socket = |role| TickingSocket::<TimerSim> {
        role,
        game: std::marker::PhantomData,
    };
    assert!(socket(Role::Spectator).ask(TimerWire::Activate).is_none());
    assert!(matches!(
        socket(Role::Player).ask(TimerWire::Activate),
        Some(TickMsg::Wire(TimerWire::Activate))
    ));
    let actor = TickingService::<TimerSim>::new(0);
    let shown = socket(Role::Spectator).state(Some(actor.get()));
    assert!(!timer_snapshot(&shown.expect("the state")).pending);
    assert!(socket(Role::Player).join().is_none());
    assert!(socket(Role::Player).hello().is_none());
    assert!(socket(Role::Player).leaving().is_none());
    assert!(socket(Role::Player).farewell(None).is_empty());
}

#[test]
fn the_button_branch_wins_the_select_and_drops_the_timer() {
    let mut actor = TickingService::<SelectSim>::new(0);
    actor.on_wire(&SelectWire::Arm, 0);
    let events = actor.on_wire(&SelectWire::Press { color: Color::Green }, 1_000);
    assert_eq!(
        events[0],
        SelectEvent::Won { won: Won::Button { color: Color::Green } }
    );
    match events[1] {
        SelectEvent::Snapshot { state } => {
            assert!(!state.armed);
            assert!(!state.timer.pending);
        }
        other => panic!("expected a snapshot, got {other:?}"),
    }
    assert_eq!(actor.park(2_000), None);
}

#[test]
fn the_loop_records_a_round_and_arms_the_next() {
    let mut actor = TickingService::<LoopSelectSim>::new(0);
    actor.on_wire(&LoopSelectWire::Start, 0);
    let events = actor.on_wire(&LoopSelectWire::Press { color: Color::Red }, 1_000);
    match events.last() {
        Some(LoopSelectEvent::Snapshot { state }) => {
            assert_eq!(state.rounds, 1);
            assert!(state.running && state.select.armed);
        }
        other => panic!("expected a snapshot, got {other:?}"),
    }
    assert!(actor.has_room());
    let events = actor.on_wire(&LoopSelectWire::Stop, 2_000);
    assert_eq!(events[0], LoopSelectEvent::Stopped);
    assert_eq!(actor.park(3_000), None, "a broken loop is inert");
}

type MpscAction = SocketAction<MpscMsg, MpscEvent>;

fn ask(action: MpscAction) -> MpscMsg {
    match action {
        SocketAction::Ask { msg } => msg,
        other => panic!("expected a message to the actor, got {other:?}"),
    }
}

fn sent(action: MpscAction) -> MpscEvent {
    match action {
        SocketAction::Send { event } => event,
        other => panic!("expected an event to the client, got {other:?}"),
    }
}

fn answered<E, W>(reply: MpscReply) -> SocketEvent<MpscReply, E, W> {
    SocketEvent::Answered { reply }
}

/// A presenter's mpsc session that has been greeted and listens.
fn live_session(actor: &mut MpscService, ids: &mut ConnIds) -> Session<MpscSocket> {
    let conn = ids.next_conn();
    let (session, action) = Session::open(MpscSocket::new(conn, Role::Presenter), true);
    let join = ask(action);
    assert_eq!(join, MpscMsg::AddSender { conn, owner: conn });
    let (session, action) = session.step(answered(actor.handle(&join, ids).0));
    let get = ask(action);
    assert_eq!(get, MpscMsg::Get);
    let (session, action) = session.step(answered(actor.handle(&get, ids).0));
    assert_eq!(sent(action), MpscEvent::Hello { conn });
    let (session, action) = session.step(SocketEvent::Sent { ok: true });
    match sent(action) {
        MpscEvent::Snapshot { state } => {
            assert!(state.senders.iter().any(|sender| sender.conn == conn));
        }
        other => panic!("expected the state, got {other:?}"),
    }
    let (session, action) = session.step(SocketEvent::Sent { ok: true });
    assert!(matches!(action, SocketAction::Listen));
    session
}

#[test]
fn a_session_greets_serves_and_takes_its_leave() {
    let mut ids = ConnIds::new();
    let mut actor = MpscService::default();
    let session = live_session(&mut actor, &mut ids);
    assert!(matches!(session.phase, Phase::Live));

    // commands go to the actor, and what it answers is remembered
    let wire = Some(MpscWire::ClaimPresenter);
    let (session, action) = session.step(SocketEvent::Text { wire });
    let (session, action) = session.step(answered(actor.handle(&ask(action), &mut ids).0));
    assert!(matches!(action, SocketAction::Listen));
    let wire = Some(MpscWire::CloneSender { conn: 0 });
    let (session, action) = session.step(SocketEvent::Text { wire });
    let (session, _) = session.step(answered(actor.handle(&ask(action), &mut ids).0));
    assert_eq!(session.client.owned, vec![1, 2]);

    // a keep-alive, or a patient silence, changes nothing
    let (session, action) = session.step(SocketEvent::Text { wire: None });
    assert!(matches!(action, SocketAction::Listen));
    let (session, action) = session.step(SocketEvent::Quiet { silent_ms: 25_000 });
    assert!(matches!(action, SocketAction::Listen));

    // events go to the client; one that fell behind gets a snapshot
    let event = MpscEvent::SenderLeft { conn: 9 };
    let (session, action) = session.step(SocketEvent::Published { event: event.clone() });
    assert_eq!(sent(action), event);
    let (session, _) = session.step(SocketEvent::Sent { ok: true });
    let (session, action) = session.step(SocketEvent::Lagged);
    let (session, action) = session.step(answered(actor.handle(&ask(action), &mut ids).0));
    assert!(matches!(sent(action), MpscEvent::Snapshot { .. }));
    let (session, action) = session.step(SocketEvent::Sent { ok: true });
    assert!(matches!(action, SocketAction::Listen));

    // leaving drops every handle, one after the other
    let (session, action) = session.step(SocketEvent::Quiet { silent_ms: 25_001 });
    let first = ask(action);
    assert_eq!(first, MpscMsg::RemoveSender { conn: 1 });
    let (session, action) = session.step(answered(actor.handle(&first, &mut ids).0));
    let second = ask(action);
    assert_eq!(second, MpscMsg::RemoveSender { conn: 2 });
    let (session, action) = session.step(answered(actor.handle(&second, &mut ids).0));
    assert!(matches!(action, SocketAction::Depart));
    assert!(matches!(session.phase, Phase::Over));
    let (_, action) = session.step(SocketEvent::Gone);
    assert!(matches!(action, SocketAction::Stop));
    match actor.handle(&MpscMsg::Get, &mut ids).0 {
        MpscReply::State(state) => assert!(state.senders.is_empty()),
        other => panic!("expected the state, got {other:?}"),
    }
}

#[test]
fn a_session_without_an_actor_is_refused() {
    let (session, action) = Session::open(MpscSocket::new(1, Role::Player), false);
    assert!(matches!(action, SocketAction::Refuse));
    assert!(matches!(session.phase, Phase::Over));
    let (session, _) = Session::open(MpscSocket::new(1, Role::Player), true);
    let (_, action) = session.step(SocketEvent::Unheard);
    assert!(matches!(action, SocketAction::Refuse));
    let (session, _) = Session::open(MpscSocket::new(1, Role::Player), true);
    let (session, _) = session.step(SocketEvent::Unanswered);
    let (_, action) = session.step(SocketEvent::Unheard);
    assert!(matches!(action, SocketAction::Refuse));
}

#[test]
fn a_lost_first_state_is_an_empty_game() {
    let (session, _) = Session::open(MpscSocket::new(1, Role::Player), true);
    let (session, action) = session.step(SocketEvent::Unanswered);
    assert_eq!(ask(action), MpscMsg::Get);
    let (session, action) = session.step(SocketEvent::Unanswered);
    assert_eq!(sent(action), MpscEvent::Hello { conn: 1 });
    let (session, action) = session.step(SocketEvent::Sent { ok: true });
    assert_eq!(sent(action), MpscEvent::Snapshot { state: MpscSim::new(0).snapshot() });
    let (_, action) = session.step(SocketEvent::Sent { ok: true });
    assert!(matches!(action, SocketAction::Listen));

    let (session, _) = Session::open(WatchSocket { conn: 2, role: Role::Player }, true);
    let (session, _) = session.step(SocketEvent::Unanswered);
    let (_, action) = session.step(SocketEvent::Sent { ok: true });
    let blank = WatchEvent::Snapshot { state: WatchSim::new().snapshot() };
    assert!(matches!(action, SocketAction::Send { event } if event == blank));

    let (session, _) = Session::open(BroadcastSocket { conn: 2, role: Role::Player }, true);
    let (session, _) = session.step(SocketEvent::Unanswered);
    let (_, action) = session.step(SocketEvent::Sent { ok: true });
    let blank = BroadcastEvent::Snapshot { state: BroadcastSim::new().snapshot() };
    assert!(matches!(action, SocketAction::Send { event } if event == blank));

    let (session, _) = Session::open(ButtonSocket { role: Role::Player }, true);
    let (_, action) = session.step(SocketEvent::Unanswered);
    let blank = ButtonEvent::Snapshot { state: ButtonState::Idle };
    assert!(matches!(action, SocketAction::Send { event } if event == blank));

    let timer = TickingSocket::<TimerSim> { role: Role::Player, game: std::marker::PhantomData };
    let (session, _) = Session::open(timer, true);
    let (_, action) = session.step(SocketEvent::Unanswered);
    assert!(matches!(action, SocketAction::Refuse));
}

#[test]
fn a_lost_answer_to_a_command_is_no_farewell() {
    let mut ids = ConnIds::new();
    let mut actor = MpscService::default();
    let session = live_session(&mut actor, &mut ids);
    let wire = Some(MpscWire::CloneSender { conn: 0 });
    let (session, _) = session.step(SocketEvent::Text { wire });
    let (session, action) = session.step(SocketEvent::Unanswered);
    assert!(matches!(action, SocketAction::Listen));
    assert_eq!(session.client.owned, vec![1]);
}

#[test]
fn a_failed_resync_ends_the_session_of_a_clock_alone() {
    let mut ids = ConnIds::new();
    let mut actor = MpscService::default();
    let mut session = live_session(&mut actor, &mut ids);
    for told in [SocketEvent::Unheard, SocketEvent::Unanswered] {
        let (lagging, action) = session.step(SocketEvent::Lagged);
        assert_eq!(ask(action), MpscMsg::Get);
        let (listening, action) = lagging.step(told);
        assert!(matches!(action, SocketAction::Listen));
        session = listening;
    }
    let (session, action) = session.step(SocketEvent::Lagged);
    let (session, action) = session.step(answered(actor.handle(&ask(action), &mut ids).0));
    assert!(matches!(sent(action), MpscEvent::Snapshot { .. }));
    let (session, action) = session.step(SocketEvent::Sent { ok: false });
    assert!(matches!(action, SocketAction::Listen));
    // what the actor publishes has to arrive
    let event = MpscEvent::SenderLeft { conn: 9 };
    let (session, _) = session.step(SocketEvent::Published { event });
    let (_, action) = session.step(SocketEvent::Sent { ok: false });
    assert_eq!(ask(action), MpscMsg::RemoveSender { conn: 1 });

    let mut actor = TickingService::<TimerSim>::new(0);
    let state = actor.handle(&TickMsg::Get, 0).0;
    for told in [SocketEvent::Unheard, SocketEvent::Unanswered] {
        let (_, action) = lagging_timer(state.clone()).step(told);
        assert!(matches!(action, SocketAction::Depart));
    }
    let (session, _) = lagging_timer(state.clone()).step(SocketEvent::Answered { reply: state });
    let (_, action) = session.step(SocketEvent::Sent { ok: false });
    assert!(matches!(action, SocketAction::Depart));
}

/// A timer's session that fell behind and asked for a snapshot.
fn lagging_timer(state: Option<TimerEvent>) -> Session<TickingSocket<TimerSim>> {
    let timer = TickingSocket { role: Role::Player, game: std::marker::PhantomData };
    let (session, _) = Session::open(timer, true);
    let (session, _) = session.step(SocketEvent::Answered { reply: state });
    let (session, _) = session.step(SocketEvent::Sent { ok: true });
    let (session, action) = session.step(SocketEvent::Lagged);
    assert!(matches!(action, SocketAction::Ask { msg: TickMsg::Get }));
    session
}

#[test]
fn a_restarted_actor_closes_its_sessions() {
    let mut ids = ConnIds::new();
    let mut actor = MpscService::default();
    let session = live_session(&mut actor, &mut ids);
    let (session, action) = session.step(SocketEvent::ActorGone);
    assert!(matches!(action, SocketAction::CloseRestarting));
    let (_, action) = session.step(SocketEvent::Closed);
    assert_eq!(ask(action), MpscMsg::RemoveSender { conn: 1 });

    let session = live_session(&mut actor, &mut ids);
    let (session, _) = session.step(SocketEvent::Text { wire: Some(MpscWire::Receive) });
    let (_, action) = session.step(SocketEvent::Unheard);
    assert!(matches!(action, SocketAction::CloseRestarting));
}

#[test]
fn a_leaving_watcher_is_asked_what_it_owns() {
    let mut actor = WatchService::default();
    let client = WatchSocket { conn: 2, role: Role::Player };
    actor.handle(&WatchMsg::Claim { conn: 1 });
    actor.handle(&WatchMsg::Create { conn: 1, init: Some('a') });
    actor.handle(&WatchMsg::NewReceiver { conn: 2 });
    let question = client.leaving().expect("a question");
    assert_eq!(question, WatchMsg::Owned { conn: 2 });
    let known = actor.handle(&question).0;
    assert_eq!(
        client.farewell(Some(known)),
        vec![
            WatchMsg::DropReceiver { conn: 2, rx: 1 },
            WatchMsg::ReleasePresenter { conn: 2 },
        ]
    );
    assert_eq!(client.farewell(None), vec![WatchMsg::ReleasePresenter { conn: 2 }]);
    assert_eq!(client.hello(), Some(WatchEvent::Hello { conn: 2 }));
    assert_eq!(client.get(), WatchMsg::Get);

    let client = BroadcastSocket { conn: 3, role: Role::Spectator };
    assert_eq!(client.farewell(None), vec![BroadcastMsg::DropConnection { conn: 3 }]);
    assert_eq!(client.ask(BroadcastWire::Subscribe), None);
    let client = ButtonSocket { role: Role::Player };
    assert_eq!(client.ask(ButtonWire::Activate), Some(ButtonMsg::Activate));
    assert_eq!(
        client.state(Some(ButtonState::Pending)),
        Some(ButtonEvent::Snapshot { state: ButtonState::Pending })
    );
}

#[test]
fn silence_and_keepalives_are_told_apart() {
    assert!(is_dead_peer(25_001) && !is_dead_peer(25_000));
    assert!(is_keepalive("ping") && !is_keepalive("Receive"));
}

#[test]
fn an_actor_is_always_replaced() {
    let events = [
        SupervisorEvent::Spawned { handles: 1 },
        SupervisorEvent::RestartAsked,
        SupervisorEvent::ActorEnded { failed: false },
        SupervisorEvent::Spawned { handles: 2 },
        SupervisorEvent::ActorEnded { failed: true },
        SupervisorEvent::Spawned { handles: 3 },
    ];
    let actions = events.map(supervise);
    assert_eq!(
        actions,
        [
            SupervisorAction::Publish { handles: 1 },
            SupervisorAction::Cancel,
            SupervisorAction::Respawn { report: false },
            SupervisorAction::Publish { handles: 2 },
            SupervisorAction::Respawn { report: true },
            SupervisorAction::Publish { handles: 3 },
        ]
    );
}

#[test]
fn only_the_presenter_turns_the_slide() {
    let last = SLIDE_COUNT - 1;
    assert_eq!(
        rule(Role::Presenter, last, AppUp::AdvanceSlide),
        Some(AppAction::Show { slide: 0 })
    );
    assert_eq!(
        rule(Role::Presenter, 0, AppUp::PreviousSlide),
        Some(AppAction::Show { slide: last })
    );
    assert_eq!(
        rule(Role::Presenter, 3, AppUp::Restart { game: Game::Watch }),
        Some(AppAction::Restart { game: Game::Watch })
    );
    assert_eq!(rule(Role::Player, 3, AppUp::AdvanceSlide), None);
    assert_eq!(rule(Role::Spectator, 3, AppUp::Restart { game: Game::Timer }), None);
}

#[test]
fn the_room_runs_out_of_tickets() {
    let mut pool = Pool::new();
    for n in 0..PLAYER_TICKETS as u64 {
        let fresh = ticket_text(n + 1, n);
        assert!(pool.can_rule(&fresh));
        let claim = pool.claim(None, Issue::IfAvailable, fresh, 0);
        assert_eq!(claim.role, Role::Player);
    }
    let taken = ticket_text(1, 0);
    assert!(!pool.can_rule(&taken), "somebody holds that ticket");
    let claim = pool.claim(None, Issue::IfAvailable, ticket_text(99, 99), 0);
    let identity = Identity::of_claim(claim, false);
    let down = app_down(2, &identity, true, &pool.headcount(), &Some("https://x".to_string()));
    assert_eq!(down.slide, 2);
    assert_eq!(down.role, Role::Spectator, "every seat was taken");
    assert_eq!(down.granted_ticket, None);
    assert_eq!(down.players_present, PLAYER_TICKETS);
    assert_eq!(down.players_capacity, PLAYER_TICKETS);
    assert_eq!(down.join_url, None, "the address is for the presenter");
}

#[test]
fn a_ticket_is_sent_once_and_the_address_to_the_presenter() {
    let identity = Identity {
        role: Role::Presenter,
        seat: Some(3),
        ticket: Some("abc".to_string()),
    };
    let count = Headcount { claimed: 5, present: 4, capacity: 24 };
    let url = Some("https://x".to_string());
    let first = app_down(0, &identity, true, &count, &url);
    assert_eq!(first.granted_ticket.as_deref(), Some("abc"));
    assert_eq!(first.seat, Some(3));
    assert_eq!(first.players_present, 4);
    assert_eq!(first.join_url.as_deref(), Some("https://x"));
    let later = app_down(1, &identity, false, &count, &url);
    assert_eq!(later.granted_ticket, None);
}

#[test]
fn the_environment_is_read_carefully() {
    assert_eq!(join_url(None), None);
    assert_eq!(join_url(Some(String::new())), None);
    assert_eq!(
        join_url(Some("https://deck.test//".to_string())).as_deref(),
        Some("https://deck.test")
    );
    assert_eq!(presenter_key(Some("k".to_string()), 7), ("k".to_string(), false));
    assert_eq!(
        presenter_key(Some(String::new()), 0xbeef),
        ("000000000000beef".to_string(), true)
    );
    assert_eq!(generated_key(0), "0000000000000000");
}

#[test]
fn a_bounded_channel_keeps_its_numbers() {
    let mut core = MpscCore::<char>::new(1);
    assert_eq!(core.issued(), 0);
    let _ = core.send_round('a');
    assert!(matches!(core.send_round('b'), Round::Park { .. }));
    assert_eq!(core.issued(), 1);
}

#[test]
fn an_app_socket_is_told_of_every_slide_and_its_ticket_once() {
    let listen = PlaneAction::Listen;
    assert_eq!(attend(PlaneEvent::Joined), PlaneAction::Push { include_ticket: true });
    assert_eq!(attend(PlaneEvent::Sent { ok: true }), listen);
    assert_eq!(attend(PlaneEvent::Turned), PlaneAction::Push { include_ticket: false });
    assert_eq!(attend(PlaneEvent::Sent { ok: false }), PlaneAction::Depart);
    let command = AppUp::AdvanceSlide;
    let asked = attend(PlaneEvent::Text { command: Some(command) });
    assert_eq!(asked, PlaneAction::Rule { command });
    assert_eq!(attend(PlaneEvent::Ruled), listen);
    assert_eq!(attend(PlaneEvent::Text { command: None }), listen, "undecodable");
    assert_eq!(attend(PlaneEvent::SlideGone), PlaneAction::Depart);
    assert_eq!(attend(PlaneEvent::Gone), PlaneAction::Depart);
}

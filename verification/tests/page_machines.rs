//! The pages as state machines, in both modes.

use more_actors::deck::{DeckKey, GameMode, Slide};
use more_actors::games::broadcast::SenderView;
use more_actors::games::mpsc::ControlsView;
use more_actors::pages::broadcast::BroadcastPage;
use more_actors::pages::button::ButtonPage;
use more_actors::pages::clock::ClockPage;
use more_actors::pages::deck::DeckPage;
use more_actors::pages::link::{GameLink, LinkAction, LinkEvent};
use more_actors::pages::mpsc::MpscPage;
use more_actors::pages::watch::WatchPage;
use more_actors::protocol::{
    AppDown, AppUp, BroadcastEvent, BroadcastWire, ButtonEvent, ButtonState, ButtonWire, Color,
    Game, LoopSelectEvent, LoopSelectSnapshot, LoopSelectWire, MpscEvent, MpscWire, Role,
    SelectWire, TimerEvent, TimerSnapshot, TimerWire, WatchEvent, WatchWire, WATCH_MAX_RX,
};
use more_actors::sim::{BroadcastSim, LoopSelectSim, SelectSim, TimerSim, BROADCAST_HOST_CONN};

#[test]
fn a_local_broadcast_page_plays_by_itself() {
    let mut page = BroadcastPage::open(GameMode::Local);
    assert_eq!(page.my_conn, Some(0));
    let view = page.view(true, true, true);
    assert!(!view.closed && view.may_subscribe && view.may_clone && view.may_send);
    let host = SenderView { conn: BROADCAST_HOST_CONN, owner: 0, mine: true, is_host: true };
    assert_eq!(view.senders, vec![host]);
    assert_eq!(view.restart, Some(true));
    assert_eq!(page.act(BroadcastWire::Subscribe), None);
    page.type_letter(BROADCAST_HOST_CONN, Some('x'));
    assert_eq!(page.send(BROADCAST_HOST_CONN), None);
    assert!(page.drafts.is_empty());
    let view = page.view(true, true, false);
    assert_eq!(view.occupancy, "buffer 1 / 5");
    assert_eq!(view.mine, Some(page.chan.snap.receivers[0].receiver));
    assert!(!view.may_subscribe, "one receiver each");
    assert_eq!(view.restart, None);
    assert!(view.receivers[0].mine && view.receivers[0].may_receive);
    assert_eq!(page.chan.flights.len(), 1);
    let key = page.chan.flights[0].key;
    page.landed(key);
    assert!(page.chan.flights.is_empty());
    assert_eq!(page.send(BROADCAST_HOST_CONN), None, "nothing was typed");
    assert_eq!(page.view(true, true, true).occupancy, "buffer 1 / 5");
    assert_eq!(page.restart(), None);
    assert_eq!(page.view(true, true, true).occupancy, "buffer 0 / 5");
    assert_eq!(page.chan.key, key, "keys are never reused");
    assert_eq!(page.claim(true, true), None);
}

#[test]
fn a_remote_broadcast_page_waits_for_the_server() {
    let mut page = BroadcastPage::open(GameMode::Remote);
    assert!(page.view(true, true, true).closed, "nothing was heard yet");
    assert_eq!(page.claim(true, true), None, "without an identity");
    assert_eq!(page.hear(BroadcastEvent::Hello { conn: 7 }), None);
    assert_eq!(page.my_conn, Some(7));
    assert_eq!(page.claim(true, true), Some(BroadcastWire::ClaimPresenter));
    assert_eq!(page.claim(false, true), None);
    assert_eq!(page.claim(true, false), None);
    let mut server = BroadcastSim::new();
    server.handle(&BroadcastWire::CloneSender { source: BROADCAST_HOST_CONN }, 7);
    page.hear(BroadcastEvent::Snapshot { state: server.snapshot() });
    let view = page.view(false, true, false);
    assert_eq!(view.senders.len(), 2);
    assert!(!view.senders[0].mine && view.senders[1].mine);
    assert!(!view.may_subscribe && !view.may_clone && view.may_send);
    assert_eq!(page.act(BroadcastWire::Subscribe), Some(BroadcastWire::Subscribe));
    assert!(page.chan.snap.receivers.is_empty());
    page.type_letter(1, Some('q'));
    assert_eq!(page.send(1), Some(BroadcastWire::Send { conn: 1, ch: 'q' }));
    assert_eq!(page.send(1), None);
    assert_eq!(page.hear(BroadcastEvent::InFlight { conn: 1, ch: 'q' }), Some(1));
    assert_eq!(page.restart(), Some(AppUp::Restart { game: Game::Broadcast }));
    assert_eq!(page.chan.flights.len(), 1);
}

#[test]
fn a_local_mpsc_page_plays_by_itself() {
    let mut page = MpscPage::open(GameMode::Local, 100);
    assert_eq!(page.clone_sender(1_000), None);
    assert_eq!(page.next_conn, 2);
    let view = page.view(true, true, true);
    assert_eq!(view.nodes.len(), 2);
    assert_eq!(view.nodes[1].label, "tx #1");
    assert!(view.may_receive && view.presents);
    page.type_letter(1, Some('z'));
    let shown = page.view(true, true, true).controls;
    assert_eq!(shown[1], ControlsView { conn: 1, blocked: false, draft: Some('z') });
    let watching = page.view(true, false, false);
    assert!(watching.controls.is_empty(), "a spectator watches");
    assert!(!watching.shows_receive && !watching.may_receive);
    assert_eq!(watching.nodes.len(), 2);
    assert_eq!(page.send(1, 1_000), None);
    assert_eq!(page.view(true, true, true).nodes[1].label, "z", "it is in the air");
    page.tick(1_050);
    assert_eq!(page.chan.flights.len(), 1);
    page.tick(1_100);
    assert!(page.chan.flights.is_empty());
    assert_eq!(page.chan.snap.buffer.len(), 1);
    assert_eq!(page.act(MpscWire::Receive, 1_200), None);
    assert_eq!(page.chan.snap.last_received.map(|value| value.ch), Some('z'));
    assert_eq!(page.restart(), None);
    assert_eq!(page.view(true, true, true).nodes.len(), 1);
    assert_eq!(page.next_conn, 2);
}

#[test]
fn a_remote_mpsc_page_waits_for_the_server() {
    let mut page = MpscPage::open(GameMode::Remote, 100);
    assert_eq!(page.my_conn, None);
    page.hear(MpscEvent::Hello { conn: 4 });
    assert_eq!(page.claim(true, true), Some(MpscWire::ClaimPresenter));
    assert_eq!(page.clone_sender(5), Some(MpscWire::CloneSender { conn: 0 }));
    assert_eq!(page.next_conn, 1);
    assert_eq!(page.act(MpscWire::Receive, 5), Some(MpscWire::Receive));
    page.type_letter(4, Some('a'));
    page.type_letter(4, Some('b'));
    assert_eq!(page.send(4, 5), Some(MpscWire::Send { conn: 4, ch: 'b' }));
    page.hear(MpscEvent::InFlight { conn: 4, ch: 'b' });
    page.tick(9_000);
    assert_eq!(page.chan.flights.len(), 1, "only the server lands it");
    assert_eq!(page.restart(), Some(AppUp::Restart { game: Game::Mpsc }));
    assert!(!page.view(false, true, false).may_receive);
}

#[test]
fn a_local_watch_page_plays_by_itself() {
    let mut page = WatchPage::open(GameMode::Local);
    let view = page.view(true, true, true);
    assert!(view.shows_create && !view.shows_send && !view.created && view.presents);
    assert_eq!(view.note, "no channel yet — presenter creates it");
    page.init = "  a".to_string();
    assert_eq!(page.create(), None);
    assert!(page.init.is_empty());
    for _ in 0..WATCH_MAX_RX {
        assert!(page.view(true, true, true).may_subscribe);
        assert_eq!(page.act(WatchWire::NewReceiver), None);
    }
    let view = page.view(true, true, true);
    assert!(!view.may_subscribe && !view.cards[0].may_clone, "no more than the cap");
    assert!(view.shows_send && view.may_send && view.cards[0].operable);
    assert_eq!(view.value, "a");
    page.act(WatchWire::LookInside { rx: 1 });
    page.draft = "b".to_string();
    assert_eq!(page.send(), None);
    let view = page.view(true, true, true);
    assert!(view.pending && !view.may_send);
    assert_eq!(view.cards[0].label, "a");
    page.act(WatchWire::LookInside { rx: 1 });
    assert_eq!(page.view(true, true, true).value, "b");
    page.draft = " ".to_string();
    assert_eq!(page.send(), None, "no letter, no send");
    assert!(page.draft.is_empty());
    assert_eq!(page.restart(), None);
    assert!(!page.view(true, true, true).created);
}

#[test]
fn a_remote_watch_page_waits_for_the_server() {
    let mut page = WatchPage::open(GameMode::Remote);
    assert!(!page.view(true, true, false).shows_create, "somebody else presents");
    assert_eq!(page.hear(WatchEvent::Hello { conn: 3 }), None);
    assert_eq!(page.claim(true, true), Some(WatchWire::ClaimPresenter));
    assert_eq!(page.hear(WatchEvent::SameValue), Some(1));
    assert_eq!(page.hear(WatchEvent::SendBlocked), Some(2));
    assert_eq!(page.badge, Some(("blocked", 2)));
    page.take_down(1);
    assert_eq!(page.badge, Some(("blocked", 2)), "a later badge stays");
    page.take_down(2);
    assert_eq!(page.badge, None);
    page.init = "x".to_string();
    assert_eq!(page.create(), Some(WatchWire::Create { init: Some('x') }));
    page.draft = "yz".to_string();
    assert_eq!(page.send(), Some(WatchWire::Send { ch: 'y' }));
    let added = WatchEvent::ReceiverAdded { id: 9, owner: 3 };
    assert_eq!(page.hear(added), None);
    assert_eq!(page.chan.flights.len(), 1);
    let key = page.chan.flights[0].key;
    page.landed(key);
    assert!(page.chan.flights.is_empty());
    assert_eq!(page.restart(), Some(AppUp::Restart { game: Game::Watch }));
}

#[test]
fn a_spectator_gets_no_buttons() {
    let mut button = ButtonPage::open(GameMode::Local);
    let view = button.view(true, false, false);
    assert!(!view.plays && !view.shows_create && !view.may_create && !view.presents);
    button.act(ButtonWire::Activate);
    assert!(button.view(true, true, false).may_press);
    assert!(!button.view(true, false, false).may_press);

    let mut watch = WatchPage::open(GameMode::Local);
    let view = watch.view(true, false, false);
    assert!(!view.shows_create && !view.may_create);
    watch.init = "a".to_string();
    watch.create();
    watch.act(WatchWire::NewReceiver);
    let view = watch.view(true, false, false);
    assert!(view.created && view.cards.len() == 1);
    assert!(!view.shows_send && !view.may_send && !view.shows_subscribe && !view.may_subscribe);
    let card = &view.cards[0];
    assert!(!card.operable && !card.shows_clone && !card.may_clone);
    assert!(watch.view(true, true, false).cards[0].may_clone);

    let mut broadcast = BroadcastPage::open(GameMode::Local);
    broadcast.act(BroadcastWire::Subscribe);
    let view = broadcast.view(true, false, false);
    assert_eq!(view.senders.len(), 1);
    assert!(!view.plays && !view.may_subscribe && !view.may_clone && !view.may_send);
    assert!(view.receivers[0].mine);
    assert!(!view.receivers[0].may_receive && !view.receivers[0].may_drop);
}

#[test]
fn the_button_page_works_in_both_modes() {
    let mut local = ButtonPage::open(GameMode::Local);
    assert!(local.view(true, true, true).shows_create && !local.view(true, true, true).may_press);
    assert_eq!(local.act(ButtonWire::Activate), None);
    assert!(!local.view(true, true, true).shows_create && local.view(true, true, true).may_press);
    assert!(!local.view(false, true, true).may_press);
    local.act(ButtonWire::Press { color: Color::Green });
    assert_eq!(local.view(true, true, true).yielded, Some(Color::Green));
    assert_eq!(local.view(true, true, true).note, "the resolved future is consumed — start a new one");
    assert_eq!(local.restart(), None);
    assert_eq!(local.state, ButtonState::Idle);

    let mut remote = ButtonPage::open(GameMode::Remote);
    assert_eq!(remote.act(ButtonWire::Activate), Some(ButtonWire::Activate));
    assert_eq!(remote.state, ButtonState::Idle);
    remote.hear(&ButtonEvent::Activated);
    assert_eq!(remote.state, ButtonState::Pending);
    assert_eq!(remote.restart(), Some(AppUp::Restart { game: Game::Button }));
    assert_eq!(remote.state, ButtonState::Pending);
}

#[test]
fn the_clock_pages_work_in_both_modes() {
    let mut timer = ClockPage::<TimerSim>::open(GameMode::Local, 0);
    assert!(!timer.tick(500), "an idle page is left alone");
    assert_eq!(timer.view(true, true).command, TimerWire::Activate);
    assert!(!timer.view(true, false).enabled);
    assert_eq!(timer.act(TimerWire::Activate, 1_000), None);
    let view = timer.view(true, true);
    assert_eq!(view.command, TimerWire::Cancel);
    assert_eq!(view.readout, "awaiting… resolves in 9s");
    assert!(timer.tick(10_000));
    assert_eq!(timer.view(true, true).readout, "yielded 9s waited");
    assert_eq!(timer.restart(0), None);
    assert_eq!(timer.state, TimerSnapshot::default());

    let mut remote = ClockPage::<TimerSim>::open(GameMode::Remote, 0);
    assert_eq!(remote.act(TimerWire::Activate, 1_000), Some(TimerWire::Activate));
    assert!(!remote.state.pending);
    let state = TimerSnapshot { pending: true, ..TimerSnapshot::default() };
    remote.hear(TimerEvent::Snapshot { state });
    assert!(remote.state.pending && !remote.tick(2_000));
    assert_eq!(remote.restart(0), Some(AppUp::Restart { game: Game::Timer }));

    let mut select = ClockPage::<SelectSim>::open(GameMode::Local, 0);
    assert!(!select.view(true, true).shows_leave);
    select.act(SelectWire::Arm, 0);
    let view = select.view(true, true);
    assert!(view.shows_leave && view.race.may_press);
    assert_eq!(view.label, "Restart the race");
    select.act(SelectWire::Press { color: Color::Red }, 1);
    assert_eq!(select.view(true, true).race.result, "the button won — yielded Red");

    let mut looping = ClockPage::<LoopSelectSim>::open(GameMode::Local, 0);
    assert_eq!(looping.view(true, true).badge, None);
    looping.act(LoopSelectWire::Start, 0);
    looping.act(LoopSelectWire::Press { color: Color::Blue }, 1);
    let view = looping.view(true, true);
    assert_eq!(view.badge.as_deref(), Some("round 2"));
    assert_eq!((view.command, view.label), (LoopSelectWire::Stop, "break"));
    assert!(view.shows_clear && view.race.may_press);
    assert!(!looping.view(false, true).race.may_press);

    let mut spectator = ClockPage::<LoopSelectSim>::open(GameMode::Remote, 0);
    let state = LoopSelectSnapshot { rounds: 4, ..LoopSelectSnapshot::default() };
    spectator.hear(LoopSelectEvent::Snapshot { state });
    assert_eq!(spectator.state.rounds, 4);
    assert_eq!(spectator.restart(0), Some(AppUp::Restart { game: Game::LoopSelect }));
}

#[test]
fn the_deck_follows_keys_and_the_server() {
    let mut deck = DeckPage::open(GameMode::Remote, 2);
    assert_eq!(deck.press(&DeckKey::ArrowRight), None, "a spectator does not navigate");
    let down = AppDown {
        slide: 5,
        role: Role::Presenter,
        seat: Some(1),
        granted_ticket: Some("t-1".to_string()),
        players_present: 2,
        players_capacity: 20,
        join_url: Some("http://x/?t".to_string()),
    };
    assert_eq!(deck.hear(down).as_deref(), Some("t-1"));
    assert_eq!(deck.view().slide, Slide::at(5));
    assert_eq!(deck.view().counter, "6 / 9");
    assert_eq!(deck.press(&DeckKey::ArrowRight), Some(AppUp::AdvanceSlide));
    assert_eq!(deck.press(&DeckKey::PageUp), Some(AppUp::PreviousSlide));
    assert_eq!(deck.slide, 5, "the server owns the slide");
    assert!(deck.view().join.is_none());
    assert_eq!(deck.press(&DeckKey::Character("q".to_string())), None);
    let join = deck.view().join.expect("the join code is up");
    assert_eq!((join.url.as_str(), join.players_present), ("http://x/?t", 2));
    deck.press(&DeckKey::Escape);
    assert!(deck.view().join.is_none());
    deck.press(&DeckKey::Character("q".to_string()));
    deck.close_join();
    assert!(!deck.joining);

    let mut export = DeckPage::open(GameMode::Local, 8);
    assert_eq!(export.press(&DeckKey::Character(" ".to_string())), None);
    assert_eq!(export.slide, 0, "the deck wraps around");
    assert_eq!(export.step(false), None);
    assert_eq!(export.slide, 8);
    export.press(&DeckKey::Character("q".to_string()));
    assert!(export.view().join.is_none(), "there is no address to join at");
    let countdown = export.bar.wake();
    assert!(export.view().awake);
    export.bar.expire(countdown);
    assert!(!export.view().awake);
}

#[test]
fn a_link_keeps_its_status_line() {
    let mut link = GameLink::open(GameMode::Remote);
    assert_eq!(link.status, "connecting…");
    assert!(!link.connected());
    assert_eq!(link.hear(LinkEvent::Opened), LinkAction::Keep);
    assert!(link.connected());
    assert_eq!(link.status, "connected");
    assert_eq!(link.hear(LinkEvent::Ping), LinkAction::SendKeepalive);
    assert_eq!(link.hear(LinkEvent::Message), LinkAction::Deliver);
    assert_eq!(link.hear(LinkEvent::Closed { code: 1006 }), LinkAction::Forget);
    assert_eq!(link.status, "disconnected (1006)");
    assert!(!link.connected());
    assert_eq!(link.hear(LinkEvent::Retrying { after_s: 4 }), LinkAction::Nothing);
    assert_eq!(link.status, "retrying in 4s…");
    link.reset();
    assert_eq!(link.status, "connecting…");
    let local = GameLink::open(GameMode::Local);
    assert!(local.connected());
    assert_eq!(local.status, "single-player");
}

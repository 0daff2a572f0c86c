use more_actors::clock::{wall_now_ms, wall_offset_ms};
use more_actors::deck::GameMode;
use more_actors::games::palette::{color_index, sender_hex, sender_text_color};
use more_actors::games::qr::{join_count, missing_code, qr_svg};
use more_actors::games::select::{
    arm_label, branch_classes, countdown, countdown_class, dispatch_loop, dispatch_select,
    loop_button, may_press, remaining_s, result, result_class, round_badge, tape_cell,
};
use more_actors::games::timer::{
    button, dispatch_local as dispatch_timer, readout, readout_class, rounded_seconds, seconds,
    tick_count, tick_local,
};
use more_actors::games::{broadcast, button as button_page, mpsc, watch};
use more_actors::highlight::{highlight, html_escape, render, Region};
use more_actors::protocol::{
    AppUp, BroadcastError, BroadcastEvent, BroadcastWire, BufferChar, ButtonEvent, ButtonState,
    ButtonWire, Color, Game, LoopSelectWire, MpscEvent, MpscSnapshot, MpscWire, RxInfo, RxState,
    SelectSnapshot, SelectWinner, SelectWire, SenderInfo, TimerEvent, TimerSnapshot, TimerWire,
    WatchEvent, WatchWire, Won, TIMER_PERIOD_S,
};
use more_actors::sim::{ButtonSim, LoopSelectSim, SelectSim, TimerSim};

#[test]
fn colors_are_stable_per_conn_and_cycle() {
    assert_eq!(sender_hex(0), sender_hex(10));
    assert_eq!(color_index(1), 1);
    assert_eq!(color_index(11), 1);
}

#[test]
fn the_palette_is_tableau_ten() {
    let colors: Vec<String> = (0..10).map(sender_hex).collect();
    assert_eq!(
        colors,
        [
            "#4e79a7", "#f28e2c", "#e15759", "#76b7b2", "#59a14f", "#edc949", "#af7aa1",
            "#ff9da7", "#9c755f", "#bab0ab",
        ]
    );
    let inks: Vec<&str> = (0..10).map(sender_text_color).collect();
    assert_eq!(
        inks,
        ["#fff", "#333", "#fff", "#333", "#fff", "#333", "#fff", "#333", "#fff", "#333"]
    );
}

#[test]
fn a_url_renders_to_an_svg() {
    let svg = qr_svg("https://example.test/?t=abc").expect("encodable");
    assert!(svg.starts_with("<?xml") || svg.starts_with("<svg"));
    assert!(svg.contains("</svg>"));
}

#[test]
fn distinct_urls_render_differently() {
    let first = qr_svg("https://example.test/a").expect("encodable");
    let second = qr_svg("https://example.test/b").expect("encodable");
    assert_ne!(first, second);
}

#[test]
fn an_unencodable_payload_is_reported_rather_than_panicking() {
    // past the version-40 capacity for any error-correction level
    let huge = "x".repeat(8000);
    assert_eq!(qr_svg(&huge), None);
    assert_eq!(
        missing_code(&qr_svg(&huge)),
        Some("cannot render a code for this url")
    );
    assert_eq!(missing_code(&qr_svg("https://example.test/a")), None);
}

#[test]
fn the_code_is_black_on_white() {
    let svg = qr_svg("https://example.test/a").expect("encodable");
    assert!(svg.contains("fill=\"#ffffff\""));
    assert!(svg.contains("fill=\"#000000\""));
    assert_eq!(join_count(3, 24), "21 of 24 handles free");
    assert_eq!(join_count(24, 24), "all 24 handles taken");
    assert_eq!(join_count(30, 24), "all 24 handles taken");
}

#[test]
fn code_is_highlighted_and_escaped() {
    let html = highlight("fn f() -> u8 { 1 }\n", "rust");
    assert!(html.contains("<span style=\"color:#"));
    assert!(html.contains("fn"));
    assert!(html.contains("&gt;"));
    assert!(!html.contains("->"));
    assert_ne!(html, "fn f() -> u8 { 1 }\n");
    // an unknown language is shown as it is
    assert_eq!(highlight("a < b & \"c\"", "no such language"), "a &lt; b &amp; &quot;c&quot;");
    assert_eq!(html_escape("<&>\""), "&lt;&amp;&gt;&quot;");
    assert_eq!(highlight("", "rust"), "");
}

#[test]
fn regions_become_spans_line_by_line() {
    let region = |font, text: &str| Region {
        red: 1,
        green: 0xab,
        blue: 255,
        font,
        text: text.to_string(),
    };
    let regions = Some(vec![Some(vec![region(7, "a<"), region(0, "")]), None]);
    assert_eq!(
        render("a<\nb>", &regions),
        "<span style=\"color:#01abff;font-weight:bold;font-style:italic;\
         text-decoration:underline\">a&lt;</span>b&gt;"
    );
    let plain = Some(vec![Some(vec![region(0, "x")])]);
    assert_eq!(render("x", &plain), "<span style=\"color:#01abff\">x</span>");
    let underlined = Some(vec![Some(vec![region(2, "x")])]);
    assert_eq!(
        render("x", &underlined),
        "<span style=\"color:#01abff;text-decoration:underline\">x</span>"
    );
}

#[test]
fn a_live_branch_never_reads_zero_before_it_resolves() {
    let timer = TimerSnapshot {
        pending: true,
        wall_ms: 0,
        remaining_ms: Some(1),
        waited_ms: None,
    };
    assert_eq!(remaining_s(timer), 1);
}

#[test]
fn a_countdown_past_its_deadline_reads_zero_rather_than_negative() {
    let timer = TimerSnapshot {
        pending: true,
        wall_ms: 0,
        remaining_ms: Some(-20),
        waited_ms: None,
    };
    assert_eq!(remaining_s(timer), 0);
}

#[test]
fn an_idle_branch_reads_zero() {
    assert_eq!(remaining_s(TimerSnapshot::default()), 0);
}

#[test]
fn a_winner_names_a_css_class_per_branch() {
    // the tape colours cells by branch, so these must not collide
    assert_eq!(Won::Timer { waited_ms: 3_000 }.css_name(), "timer");
    assert_eq!(Won::Button { color: Color::Red }.css_name(), "red");
    assert_ne!(
        Won::Timer { waited_ms: 3_000 }.css_name(),
        Won::Button { color: Color::Green }.css_name(),
    );
}

#[test]
fn the_period_divides_the_dial_evenly() {
    // the dial draws one tick per period; a remainder would leave a gap
    assert_eq!(60 % TIMER_PERIOD_S, 0);
    assert_eq!(tick_count(), 6);
}

#[test]
fn a_countdown_rounds_up_so_it_never_shows_zero_while_waiting() {
    assert_eq!(seconds(1), 1);
    assert_eq!(seconds(999), 1);
    assert_eq!(seconds(1_000), 1);
    assert_eq!(seconds(1_001), 2);
}

#[test]
fn a_countdown_never_goes_negative() {
    // a snapshot can arrive a hair after its own deadline
    assert_eq!(seconds(-5), 0);
}

fn epoch_ms() -> u64 {
    std::time::SystemTime::now()
        .duration_since(std::time::UNIX_EPOCH)
        .map(|elapsed| elapsed.as_millis() as u64)
        .unwrap_or_default()
}

#[test]
fn the_wall_clock_stays_inside_one_minute() {
    let wall = wall_now_ms(epoch_ms());
    assert!((0..60_000).contains(&wall), "got {wall}");
}

#[test]
fn the_offset_maps_the_monotonic_clock_onto_the_dial() {
    // a sim built with this offset reads the same minute as the wall
    let wall = wall_now_ms(epoch_ms());
    for now in [0, 1, 59_999, 60_000, 1_234_567] {
        let offset = wall_offset_ms(wall, now);
        assert_eq!((now + offset) % 60_000, wall);
    }
}

#[test]
fn waits_are_shown_in_whole_seconds() {
    assert_eq!(rounded_seconds(6_499), 6);
    assert_eq!(rounded_seconds(6_500), 6);
    assert_eq!(rounded_seconds(7_500), 8);
    assert_eq!(rounded_seconds(6_501), 7);
}

#[test]
fn the_timer_page_follows_its_sim() {
    let mut sim = TimerSim::new(0);
    let idle = sim.snapshot();
    assert_eq!(readout(&idle), "idle — nothing is waiting");
    assert_eq!(readout_class(&idle), "note-pill");
    let (wire, label) = button(&idle);
    assert_eq!((wire, label), (TimerWire::Activate, "Await the timer"));
    let pending = dispatch_timer(&mut sim, &wire, 3_500);
    assert_eq!(readout(&pending), "awaiting… resolves in 7s");
    assert_eq!(readout_class(&pending), "note-pill pending");
    assert_eq!(button(&pending), (TimerWire::Cancel, "Drop the future"));
    assert_eq!(
        tick_local(&mut sim, 10_000),
        vec![TimerEvent::Resolved { waited_ms: 6_500 }]
    );
    let done = sim.snapshot();
    assert_eq!(readout(&done), "yielded 6s waited");
    assert_eq!(readout_class(&done), "note-pill resolved");
    assert!(tick_local(&mut sim, 20_000).is_empty());
    assert_eq!(sim.snapshot(), done, "an idle sim is left untouched");
    let shown = more_actors::games::timer::apply(idle, &TimerEvent::Cancelled);
    assert_eq!(shown, idle);
    let shown = more_actors::games::timer::apply(idle, &TimerEvent::Snapshot { state: done });
    assert_eq!(shown, done);
}

#[test]
fn the_select_page_follows_its_sim() {
    let mut sim = SelectSim::new(0);
    let idle = SelectSnapshot::default();
    assert_eq!(result(&idle), "not in a select");
    assert_eq!(countdown(&idle), "—");
    assert_eq!(countdown_class(&idle), "countdown idle");
    assert_eq!(result_class(&idle), "note-pill");
    assert_eq!(branch_classes(&idle), ("race-branch", "race-branch"));
    assert_eq!(arm_label(false), "Enter the select");
    assert_eq!(arm_label(true), "Restart the race");
    let armed = dispatch_select(&mut sim, &SelectWire::Arm, 1_000);
    assert_eq!(result(&armed), "awaiting both — first one wins");
    assert_eq!(countdown(&armed), "9s");
    assert_eq!(countdown_class(&armed), "countdown");
    assert_eq!(result_class(&armed), "note-pill pending");
    assert_eq!(branch_classes(&armed), ("race-branch live", "race-branch live"));
    assert!(may_press(&armed, true) && !may_press(&armed, false) && !may_press(&idle, true));
    let won = dispatch_select(&mut sim, &SelectWire::Press { color: Color::Blue }, 2_000);
    assert_eq!(result(&won), "the button won — yielded Blue");
    assert_eq!(result_class(&won), "note-pill resolved blue");
    assert_eq!(branch_classes(&won), ("race-branch", "race-branch won"));

    let mut looping = LoopSelectSim::new(0);
    assert_eq!(loop_button(false), (LoopSelectWire::Start, "Run the loop"));
    assert_eq!(loop_button(true), (LoopSelectWire::Stop, "break"));
    dispatch_loop(&mut looping, &LoopSelectWire::Start, 0);
    let shown = dispatch_loop(&mut looping, &LoopSelectWire::Press { color: Color::Red }, 1);
    assert_eq!(shown.rounds, 1);
    assert_eq!(round_badge(shown.rounds), "round 2");
    assert_eq!(tape_cell(&shown.history[0]), "Red");
    let timed = SelectWinner { round: 2, won: Won::Timer { waited_ms: 7_400 } };
    assert_eq!(tape_cell(&timed), "7s");
    let timer_won = SelectSnapshot {
        winner: Some(Won::Timer { waited_ms: 7_400 }),
        timer: TimerSnapshot { waited_ms: Some(7_400), ..TimerSnapshot::default() },
        ..SelectSnapshot::default()
    };
    assert_eq!(result(&timer_won), "the timer won — yielded 7s");
    assert_eq!(countdown(&timer_won), "7s");
    assert_eq!(countdown_class(&timer_won), "countdown done");
    assert_eq!(result_class(&timer_won), "note-pill resolved");
    assert_eq!(branch_classes(&timer_won), ("race-branch won", "race-branch"));
}

#[test]
fn the_button_page_follows_its_events() {
    let mut sim = ButtonSim::new();
    let pending = button_page::dispatch_local(&mut sim, &ButtonWire::Activate);
    assert_eq!(pending, ButtonState::Pending);
    assert!(!button_page::may_create(pending));
    assert_eq!(button_page::dot_class(pending), "future-pad pending");
    assert_eq!(button_page::footer_note(pending), "");
    let ready = button_page::dispatch_local(&mut sim, &ButtonWire::Press { color: Color::Red });
    assert_eq!(ready, ButtonState::Ready(Color::Red));
    assert_eq!(button_page::resolved(ready), Some(Color::Red));
    assert_eq!(button_page::dot_label(ready), "resolved");
    assert_eq!(
        button_page::footer_note(ready),
        "the resolved future is consumed — start a new one"
    );
    let late = button_page::dispatch_local(&mut sim, &ButtonWire::Press { color: Color::Blue });
    assert_eq!(late, ready);
    let fresh = ButtonEvent::Snapshot { state: ButtonState::Idle };
    assert_eq!(button_page::apply_button_event(ready, &fresh), ButtonState::Idle);
}

fn sender(conn: u64, owner: u64, blocked: bool) -> SenderInfo {
    SenderInfo { conn, owner, blocked }
}

#[test]
fn the_mpsc_page_follows_its_events() {
    let mut sim = mpsc::local_sim(100);
    let mut chan = mpsc::ChannelState::new(sim.snapshot());
    let send = |ch| MpscWire::Send { conn: 0, ch };
    mpsc::dispatch_local(&mut sim, &mut chan, &send('a'), 1_000);
    assert_eq!(chan.flights, vec![mpsc::Flight { key: 1, ch: 'a', conn: 0 }]);
    assert_eq!(mpsc::label(&chan, 0), "a", "a value in hand outranks the name");
    assert_eq!(mpsc::label(&chan, 7), "tx #7");
    assert_eq!(mpsc::occupancy(&chan.snap), "buffer 1 / 5");
    assert_eq!(mpsc::empty_slots(&chan.snap), 5);
    mpsc::tick_local(&mut sim, &mut chan, 1_050);
    assert_eq!(chan.flights.len(), 1, "still in the air");
    mpsc::tick_local(&mut sim, &mut chan, 1_100);
    assert!(chan.flights.is_empty());
    assert_eq!(mpsc::empty_slots(&chan.snap), 4);
    for ch in ['b', 'c', 'd', 'e', 'z'] {
        mpsc::dispatch_local(&mut sim, &mut chan, &send(ch), 1_200);
    }
    assert_eq!(mpsc::label(&chan, 0), "z", "the parked send comes first");
    assert_eq!(mpsc::blocked_count(&chan.snap.senders), 1);
    assert_eq!(mpsc::footer_note(&chan.snap), "1 sender(s) blocked");
    assert_eq!(mpsc::footer_class(&chan.snap), "note-pill blocked");
    mpsc::dispatch_local(&mut sim, &mut chan, &MpscWire::Receive, 1_300);
    assert_eq!(mpsc::footer_note(&chan.snap), "");
    assert_eq!(mpsc::footer_class(&chan.snap), "");
    assert_eq!(mpsc::received_label(chan.snap.last_received), "→ a");
    assert_eq!(mpsc::received_label(None), "→ –");

    let mut page = mpsc::ChannelState::new(mpsc::empty_snapshot());
    page.apply(MpscEvent::InFlight { conn: 3, ch: 'x' });
    page.apply(MpscEvent::InFlight { conn: 4, ch: 'x' });
    page.apply(MpscEvent::Consumed { conn: 3, ch: 'x' });
    assert_eq!(page.flights, vec![mpsc::Flight { key: 2, ch: 'x', conn: 4 }]);
    page.apply(MpscEvent::SenderJoined { conn: 5, owner: 5 });
    assert!(page.snap.senders.is_empty(), "the snapshot will tell");
    let waiting = MpscSnapshot { waiting_receive: true, ..mpsc::empty_snapshot() };
    page.apply(MpscEvent::Snapshot { state: waiting });
    assert_eq!(mpsc::footer_note(&page.snap), "receiver waiting…");
    assert_eq!(mpsc::footer_class(&page.snap), "note-pill waiting");
    assert_eq!(mpsc::receiver_class(true), "actor receiver waiting");
    assert_eq!(mpsc::receiver_class(false), "actor receiver");
}

#[test]
fn the_mpsc_page_shows_the_viewers_own_controls() {
    let senders = vec![sender(1, 1, false), sender(2, 2, true), sender(3, 2, false)];
    let mut drafts: Vec<(u64, char)> = Vec::new();
    mpsc::set_draft(&mut drafts, 3, Some('x'));
    mpsc::set_draft(&mut drafts, 3, Some('y'));
    mpsc::set_draft(&mut drafts, 1, Some('q'));
    assert_eq!(drafts, vec![(3, 'y'), (1, 'q')]);
    let controls = mpsc::controls(&senders, &drafts, Some(2));
    assert_eq!(
        controls,
        vec![
            mpsc::ControlsView { conn: 2, blocked: true, draft: None },
            mpsc::ControlsView { conn: 3, blocked: false, draft: Some('y') },
        ]
    );
    assert!(mpsc::controls(&senders, &drafts, None).is_empty());
    assert_eq!(mpsc::send_from(&mut drafts, 3), Some(MpscWire::Send { conn: 3, ch: 'y' }));
    assert_eq!(mpsc::send_from(&mut drafts, 3), None);
    mpsc::set_draft(&mut drafts, 1, None);
    assert!(drafts.is_empty());
    assert_eq!(mpsc::node_title(&senders[0]), "connected player");
    assert_eq!(mpsc::node_title(&senders[2]), "cloned sender");
    assert_eq!(mpsc::node_class(&senders[1]), "actor sender-node blocked");
    assert_eq!(mpsc::node_class(&senders[0]), "actor sender-node");
    assert_eq!(mpsc::position(&senders, 3), Some(2));
    assert_eq!(mpsc::position(&senders, 9), None);
}

#[test]
fn pages_ask_the_server_or_nobody() {
    assert_eq!(mpsc::clone_wire(GameMode::Local, 5), MpscWire::CloneSender { conn: 5 });
    assert_eq!(mpsc::clone_wire(GameMode::Remote, 5), MpscWire::CloneSender { conn: 0 });
    assert_eq!(mpsc::restart(GameMode::Local, Game::Mpsc), None);
    assert_eq!(
        mpsc::restart(GameMode::Remote, Game::Watch),
        Some(AppUp::Restart { game: Game::Watch })
    );
    assert!(mpsc::claims_presenter(GameMode::Remote, true, Some(1), true));
    assert!(!mpsc::claims_presenter(GameMode::Remote, true, None, true));
    assert!(!mpsc::claims_presenter(GameMode::Remote, false, Some(1), true));
    assert!(!mpsc::claims_presenter(GameMode::Remote, true, Some(1), false));
    assert!(!mpsc::claims_presenter(GameMode::Local, true, Some(1), true));
}

fn receiver(id: u64, owner: u64) -> RxInfo {
    RxInfo { id, owner, version: 0, awaiting: false, borrowing: false }
}

#[test]
fn the_watch_page_follows_its_events() {
    let mut sim = watch::local_sim();
    let mut chan = watch::WatchState::new(sim.snapshot());
    assert_eq!(watch::footer_note(&chan.snap), "no channel yet — presenter creates it");
    let mut field = " \u{3000}c!".to_string();
    let create = watch::create_channel(&mut field);
    assert_eq!(create, WatchWire::Create { init: Some('c') });
    assert_eq!(field, "");
    watch::dispatch_local(&mut sim, &mut chan, &create);
    assert_eq!(watch::footer_note(&chan.snap), "0 receivers — send fails");
    watch::dispatch_local(&mut sim, &mut chan, &WatchWire::NewReceiver);
    watch::dispatch_local(&mut sim, &mut chan, &WatchWire::NewReceiver);
    assert_eq!(watch::footer_note(&chan.snap), "2 receiver(s)");
    assert_eq!(watch::footer_class(&chan.snap), "note-pill");
    assert_eq!(chan.flights.len(), 2);
    assert_eq!(chan.flights[1].kind, watch::FlightKind::Borrow);
    chan.remove_flight(1);
    chan.remove_flight(2);
    let mut draft = "x".to_string();
    let send = watch::send_value(&mut draft).expect("a letter");
    assert_eq!(send, WatchWire::Send { ch: 'x' });
    assert_eq!(watch::send_value(&mut draft), None);
    watch::dispatch_local(&mut sim, &mut chan, &send);
    let flown: Vec<(u64, u64)> = chan.flights.iter().map(|f| (f.key, f.rx)).collect();
    assert_eq!(flown, vec![(3, 1), (4, 2)], "one flight to each receiver");
    assert_eq!(watch::value_label(chan.snap.value), "x");
    watch::dispatch_local(&mut sim, &mut chan, &WatchWire::LookInside { rx: 2 });
    assert_eq!(watch::receiver_label(&chan.snap.receivers[1], chan.snap.value), "x");
    watch::dispatch_local(&mut sim, &mut chan, &WatchWire::Send { ch: 'y' });
    assert_eq!(watch::footer_note(&chan.snap), "send blocked by 1 borrow(s)");
    assert_eq!(watch::footer_class(&chan.snap), "note-pill blocked");

    let mut page = watch::WatchState::new(watch::empty_snapshot());
    page.apply(WatchEvent::ChangedImmediately { rx: 4 });
    page.apply(WatchEvent::SameValue);
    assert_eq!(page.flights.len(), 1);
    assert_eq!(page.next_key(), 2);
    assert_eq!(watch::badge(&WatchEvent::SameValue), Some("same"));
    assert_eq!(watch::badge(&WatchEvent::SendRefused), Some("error"));
    assert_eq!(watch::badge(&WatchEvent::SendBlocked), Some("blocked"));
    assert_eq!(watch::badge(&WatchEvent::Created), None);
}

#[test]
fn the_watch_page_names_what_a_receiver_does() {
    let idle = receiver(1, 5);
    let awaiting = RxInfo { awaiting: true, ..idle };
    let looking = RxInfo { borrowing: true, ..idle };
    assert_eq!(watch::receiver_label(&idle, Some('v')), "");
    assert_eq!(watch::receiver_label(&awaiting, Some('v')), "…");
    assert_eq!(watch::receiver_label(&looking, None), "…");
    assert_eq!(watch::card_class(&idle), "actor rx-card");
    assert_eq!(watch::card_class(&awaiting), "actor rx-card awaiting");
    assert_eq!(watch::card_class(&looking), "actor rx-card borrowing");
    assert_eq!(watch::card_state(&awaiting), ("blocked in changed()", "rx-state blocked"));
    assert_eq!(watch::card_state(&looking), ("holding borrow()", "rx-state borrowing"));
    assert_eq!(watch::card_state(&idle), ("idle", "rx-state"));
    assert_eq!(watch::card_buttons(&awaiting), ("cancel", "look inside"));
    assert_eq!(watch::card_buttons(&looking), ("until change", "drop borrow"));
    assert!(watch::is_operable(&idle, 5, false));
    assert!(watch::is_operable(&idle, 6, true));
    assert!(!watch::is_operable(&idle, 6, false));
    assert_eq!(watch::viewer(None), 0);
    assert_eq!(watch::viewer(Some(4)), 4);
    assert!(watch::is_presenter(GameMode::Local, None, 4));
    assert!(watch::is_presenter(GameMode::Remote, Some(4), 4));
    assert!(!watch::is_presenter(GameMode::Remote, Some(3), 4));
    let many: Vec<RxInfo> = (1..=6).map(|id| receiver(id, 5)).collect();
    assert!(!watch::can_create(&many, 5), "six is the cap");
    assert!(watch::can_create(&many, 6));
    assert!(watch::can_create(&many[..5].to_vec(), 5));
    assert_eq!(watch::position(&many, 3), Some(2));
    assert_eq!(watch::position(&many, 9), None);
}

fn rx_state(next: u64) -> RxState {
    RxState {
        receiver: 1,
        conn: 2,
        owner: 2,
        next,
        lagged_total: 0,
        last: None,
        error: None,
        waiting: false,
    }
}

#[test]
fn the_broadcast_page_follows_its_events() {
    let mut sim = broadcast::local_sim();
    let mut chan = broadcast::ChannelState::new(sim.snapshot());
    assert!(!broadcast::is_closed(&chan.snap));
    broadcast::dispatch_local(&mut sim, &mut chan, &BroadcastWire::Subscribe);
    assert_eq!(broadcast::my_receiver(&chan.snap.receivers, Some(0)), Some(1));
    assert_eq!(broadcast::my_receiver(&chan.snap.receivers, None), None);
    assert_eq!(broadcast::my_receiver(&chan.snap.receivers, Some(4)), None);
    let mut drafts = vec![(0, 'a')];
    let wire = broadcast::send_from(&mut drafts, 0).expect("a letter");
    assert_eq!(wire, BroadcastWire::Send { conn: 0, ch: 'a' });
    assert_eq!(broadcast::send_from(&mut drafts, 0), None);
    broadcast::dispatch_local(&mut sim, &mut chan, &wire);
    assert_eq!(chan.flights, vec![broadcast::Flight { key: 1, from: 0, ch: 'a' }]);
    chan.remove_flight(1);
    assert!(chan.flights.is_empty());
    assert_eq!(broadcast::occupancy(&chan.snap), "buffer 1 / 5");
    let slots = broadcast::slots(&chan.snap);
    assert_eq!(slots.len(), 5);
    assert_eq!(slots[0], Some((0, BufferChar { ch: 'a', conn: 0 })));
    assert_eq!(slots[1], None);
    assert_eq!(broadcast::tail_slot(1), 1);
    assert_eq!(broadcast::tail_slot(9), 5);

    let mut page = broadcast::ChannelState::new(broadcast::empty_snapshot());
    assert!(broadcast::is_closed(&page.snap));
    assert_eq!(page.apply(BroadcastEvent::InFlight { conn: 3, ch: 'x' }), Some(1));
    assert_eq!(page.apply(BroadcastEvent::SendRefused), None);
    let state = chan.snap.clone();
    assert_eq!(page.apply(BroadcastEvent::Snapshot { state: state.clone() }), None);
    assert_eq!(page.snap, state);
}

#[test]
fn the_broadcast_page_names_handles_and_receivers() {
    let senders = vec![sender(0, 4, false), sender(1, 4, false), sender(2, 7, false)];
    let nodes = broadcast::nodes(&senders, Some(4));
    assert!(nodes[0].is_host && nodes[0].mine);
    assert_eq!(nodes[0].title(), "host seed sender");
    assert_eq!(nodes[0].class(), "actor sender-node host");
    assert_eq!(nodes[0].label(), "host");
    assert_eq!(nodes[1].title(), "your sender");
    assert_eq!(nodes[2].title(), "another client's sender");
    assert_eq!(nodes[2].class(), "actor sender-node");
    assert_eq!(nodes[2].label(), "Sender");
    assert!(broadcast::nodes(&senders, None).iter().all(|node| !node.mine));

    let idle = rx_state(1);
    let waiting = RxState { waiting: true, ..idle };
    let closed = RxState { error: Some(BroadcastError::Closed), ..waiting };
    let lagged = RxState { error: Some(BroadcastError::Lagged(3)), lagged_total: 9, ..idle };
    let missed = RxState { lagged_total: 9, ..idle };
    assert_eq!(broadcast::receiver_class(&closed), "actor rx-b-node closed");
    assert_eq!(broadcast::receiver_class(&waiting), "actor rx-b-node waiting");
    assert_eq!(broadcast::receiver_class(&idle), "actor rx-b-node");
    assert_eq!(broadcast::receiver_label(&closed), "closed");
    assert_eq!(broadcast::receiver_label(&waiting), "…");
    assert_eq!(broadcast::receiver_label(&idle), "Rx");
    assert_eq!(broadcast::badge(&lagged), ("lagged 3".to_string(), "lag-badge"));
    assert_eq!(broadcast::badge(&closed), ("closed".to_string(), "lag-badge closed"));
    assert_eq!(broadcast::badge(&missed), ("missed 9".to_string(), "lag-total"));
    assert_eq!(broadcast::badge(&idle), (String::new(), "lag-total"));
    assert!(broadcast::may_receive(&idle, true));
    assert!(!broadcast::may_receive(&idle, false) && !broadcast::may_receive(&closed, true));
    let last = Some(BufferChar { ch: 'x', conn: 11 });
    assert_eq!(
        broadcast::last_received(last),
        ("x".to_string(), "#f28e2c".to_string())
    );
    assert_eq!(broadcast::last_received(None), ("–".to_string(), "#999".to_string()));
}

#[test]
fn lines_tie_receivers_to_their_next_value() {
    let mut snap = broadcast::empty_snapshot();
    assert_eq!(broadcast::link(&snap, &rx_state(1)), (None, false));
    snap.buffer = ('a'..='e').map(|ch| BufferChar { ch, conn: 0 }).collect();
    snap.tail = 8;
    assert_eq!(broadcast::oldest_seq(8, 5), 3);
    assert_eq!(broadcast::oldest_seq(2, 5), 0);
    assert_eq!(broadcast::link(&snap, &rx_state(2)), (Some(0), true));
    assert_eq!(broadcast::link(&snap, &rx_state(4)), (Some(0), false));
    assert_eq!(broadcast::link(&snap, &rx_state(8)), (Some(4), false));
    assert_eq!(broadcast::link(&snap, &rx_state(9)), (Some(4), false), "caught up");
    assert_eq!(broadcast::link_color(true), "#d32f2f");
    assert_eq!(broadcast::link_color(false), "#6b6b6b");
}

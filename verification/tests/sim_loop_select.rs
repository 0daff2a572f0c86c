use more_actors::clock::Ticking;
use more_actors::protocol::{
    Color, LoopSelectEvent, LoopSelectWire, SelectEvent, SelectWinner, Won, LOOP_SELECT_HISTORY,
};
use more_actors::sim::LoopSelectSim;

fn running() -> LoopSelectSim {
    let mut looping = LoopSelectSim::new(0);
    looping.sync_now(0);
    let events = looping.handle(&LoopSelectWire::Start);
    assert_eq!(
        events,
        vec![
            LoopSelectEvent::Started,
            LoopSelectEvent::Select(SelectEvent::Armed),
        ],
    );
    looping
}

#[test]
fn a_win_records_a_round_and_re_arms() {
    let mut looping = running();
    let events = looping.tick(10_000);
    assert_eq!(
        events,
        vec![
            LoopSelectEvent::Select(SelectEvent::Won {
                won: Won::Timer { waited_ms: 10000 },
            }),
            LoopSelectEvent::Completed {
                winner: SelectWinner {
                    round: 1,
                    won: Won::Timer { waited_ms: 10000 },
                },
            },
            LoopSelectEvent::Select(SelectEvent::Armed),
        ],
        "the loop goes around again by itself",
    );

    let snapshot = looping.snapshot();
    assert_eq!(snapshot.rounds, 1);
    assert!(snapshot.select.armed, "already awaiting the next race");
    assert_eq!(looping.next_delay_ms(), Some(10_000));
}

#[test]
fn the_loop_keeps_going_around() {
    let mut looping = running();
    looping.tick(10_000);
    looping.handle(&LoopSelectWire::Press { color: Color::Red });
    looping.tick(20_000);

    let snapshot = looping.snapshot();
    assert_eq!(snapshot.rounds, 3);
    assert_eq!(
        snapshot
            .history
            .iter()
            .map(|entry| entry.won)
            .collect::<Vec<_>>(),
        vec![
            Won::Timer { waited_ms: 10000 },
            Won::Button { color: Color::Red },
            Won::Timer { waited_ms: 10000 },
        ],
    );
}

#[test]
fn the_tape_keeps_only_the_recent_rounds() {
    let mut looping = running();
    for round in 1..=(LOOP_SELECT_HISTORY + 3) {
        looping.handle(&LoopSelectWire::Press { color: Color::Blue });
        assert_eq!(looping.snapshot().rounds, round as u64);
    }
    let snapshot = looping.snapshot();
    assert_eq!(snapshot.history.len(), LOOP_SELECT_HISTORY);
    assert_eq!(
        snapshot.history.last().expect("a round was played").round,
        (LOOP_SELECT_HISTORY + 3) as u64,
        "the tape keeps the newest, not the oldest",
    );
}

#[test]
fn stopping_breaks_out_and_drops_the_pending_select() {
    let mut looping = running();
    assert_eq!(
        looping.handle(&LoopSelectWire::Stop),
        vec![LoopSelectEvent::Stopped],
    );
    assert_eq!(looping.next_delay_ms(), None);
    assert!(looping.tick(60_000).is_empty(), "a stopped loop is inert");
    assert!(!looping.snapshot().select.armed);
}

#[test]
fn a_press_while_stopped_decides_nothing() {
    let mut looping = LoopSelectSim::new(0);
    assert!(looping
        .handle(&LoopSelectWire::Press { color: Color::Red })
        .is_empty());
    assert_eq!(looping.snapshot().rounds, 0);
}

#[test]
fn starting_a_running_loop_is_a_no_op() {
    let mut looping = running();
    assert!(looping.handle(&LoopSelectWire::Start).is_empty());
}

#[test]
fn clearing_the_tape_does_not_restart_round_numbering() {
    // `SelectWinner.round` is promised never to be reused — the client
    // keys its tape on it, and a repeated key lets Dioxus reuse a stale
    // node — so emptying the tape must not reset the counter.
    let mut looping = running();
    looping.handle(&LoopSelectWire::Press { color: Color::Red });
    looping.handle(&LoopSelectWire::Clear);
    looping.handle(&LoopSelectWire::Press { color: Color::Blue });

    let snapshot = looping.snapshot();
    assert_eq!(snapshot.rounds, 2, "the counter survives the clear");
    assert_eq!(
        snapshot.history.first().map(|entry| entry.round),
        Some(2),
        "the round after a clear is numbered 2, not 1",
    );
}

#[test]
fn clearing_empties_the_tape_without_stopping_the_loop() {
    let mut looping = running();
    looping.tick(10_000);
    assert_eq!(
        looping.handle(&LoopSelectWire::Clear),
        vec![LoopSelectEvent::Cleared],
    );
    let snapshot = looping.snapshot();
    assert!(snapshot.history.is_empty());
    assert!(
        snapshot.running,
        "clearing the tape does not break the loop"
    );
}

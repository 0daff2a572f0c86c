use more_actors::clock::Ticking;
use more_actors::protocol::{
    ButtonState, Color, SelectEvent, SelectWire, Won,
};
use more_actors::sim::SelectSim;

fn armed() -> SelectSim {
    let mut select = SelectSim::new(0);
    select.sync_now(0);
    assert_eq!(select.handle(&SelectWire::Arm), vec![SelectEvent::Armed]);
    select
}

#[test]
fn the_button_can_beat_the_timer() {
    let mut select = armed();
    let events = select.handle(&SelectWire::Press { color: Color::Red });
    assert_eq!(
        events,
        vec![SelectEvent::Won {
            won: Won::Button { color: Color::Red },
        }],
    );
    // the timer branch was dropped, so it never fires
    assert_eq!(select.next_delay_ms(), None);
    assert!(select.tick(60_000).is_empty());
}

#[test]
fn the_timer_can_beat_the_button() {
    let mut select = armed();
    let events = select.tick(10_000);
    assert_eq!(
        events,
        vec![SelectEvent::Won {
            won: Won::Timer { waited_ms: 10000 },
        }],
    );
    // the button branch was dropped: a late press decides nothing
    assert!(select
        .handle(&SelectWire::Press { color: Color::Blue })
        .is_empty());
    let snapshot = select.snapshot();
    assert_eq!(
        snapshot.winner,
        Some(Won::Timer { waited_ms: 10000 }),
        "the first winner stands",
    );
    // The winning branch must still carry what it yielded: the slide
    // styles it as the winner and then renders this value inside it.
    assert_eq!(
        snapshot.timer.waited_ms,
        Some(10000),
        "a winning timer keeps its duration",
    );
}

#[test]
fn a_press_before_arming_decides_nothing() {
    let mut select = SelectSim::new(0);
    assert!(select
        .handle(&SelectWire::Press {
            color: Color::Green
        })
        .is_empty());
    assert_eq!(select.snapshot().winner, None);
}

#[test]
fn an_unarmed_select_is_not_waiting_on_the_clock() {
    let select = SelectSim::new(0);
    assert_eq!(select.next_delay_ms(), None);
}

#[test]
fn arming_again_starts_a_fresh_race() {
    let mut select = armed();
    select.handle(&SelectWire::Press { color: Color::Red });
    select.sync_now(1_000);
    select.handle(&SelectWire::Arm);
    assert_eq!(select.snapshot().winner, None, "the new race is undecided");
    assert_eq!(select.next_delay_ms(), Some(9_000));
}

#[test]
fn resetting_drops_both_branches() {
    let mut select = armed();
    assert_eq!(select.handle(&SelectWire::Reset), vec![SelectEvent::Reset]);
    assert_eq!(select.next_delay_ms(), None);
    assert!(!select.snapshot().armed);
}

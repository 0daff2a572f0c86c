use more_actors::clock::Ticking;
use more_actors::protocol::{TimerEvent, TimerWire};
use more_actors::sim::TimerSim;

/// A timer aligned to the minute: sim time zero is the top of a minute.
fn timer() -> TimerSim {
    TimerSim::new(0)
}

#[test]
fn activating_waits_until_the_next_multiple_of_ten() {
    let mut timer = timer();
    timer.sync_now(3_000);
    let events = timer.handle(&TimerWire::Activate);
    assert_eq!(
        events,
        vec![TimerEvent::Activated {
            waiting_ms: 7_000
        }]
    );

    // nothing is due before the boundary
    assert!(timer.tick(9_999).is_empty());
    assert_eq!(timer.next_delay_ms(), Some(1));

    let events = timer.tick(10_000);
    assert_eq!(events, vec![TimerEvent::Resolved { waited_ms: 7000 }]);
    assert!(timer.snapshot().waited_ms.is_some());
}

#[test]
fn the_wait_depends_on_when_you_asked() {
    // the beat of the slide: same future, same period, different wait
    let mut early = timer();
    early.sync_now(1_000);
    assert_eq!(
        early.handle(&TimerWire::Activate),
        vec![TimerEvent::Activated {
            waiting_ms: 9_000
        }],
    );

    let mut late = timer();
    late.sync_now(9_000);
    assert_eq!(
        late.handle(&TimerWire::Activate),
        vec![TimerEvent::Activated {
            waiting_ms: 1_000
        }],
    );
}

#[test]
fn activating_exactly_on_the_boundary_waits_a_whole_period() {
    // resolving instantly would make the game look broken, and an
    // aligned sleep does not do it either
    let mut timer = timer();
    timer.sync_now(10_000);
    assert_eq!(
        timer.handle(&TimerWire::Activate),
        vec![TimerEvent::Activated {
            waiting_ms: 10_000
        }],
    );
}

#[test]
fn the_resolving_frame_is_the_one_that_stops_having_a_delay() {
    // The local driver publishes a snapshot whenever a tick produced
    // events, precisely because it cannot publish on "still pending":
    // the deadline clears on the same frame the value appears.
    let mut timer = TimerSim::new(0);
    timer.sync_now(3_000);
    timer.handle(&TimerWire::Activate);
    assert!(timer.next_delay_ms().is_some(), "counting down");

    let events = timer.tick(10_000);
    assert_eq!(events, vec![TimerEvent::Resolved { waited_ms: 7000 }]);
    assert_eq!(timer.next_delay_ms(), None, "and now reads as idle");
    assert_eq!(
        timer.snapshot().waited_ms,
        Some(7000),
        "so the value is only reachable via the frame that produced it",
    );
}

#[test]
fn polling_twice_at_the_same_instant_resolves_once() {
    // the idempotence the Ticking contract promises drivers
    let mut timer = timer();
    timer.sync_now(0);
    timer.handle(&TimerWire::Activate);
    assert_eq!(timer.tick(10_000).len(), 1);
    assert!(timer.poll_due().is_empty(), "already resolved");
}

#[test]
fn an_idle_timer_is_not_waiting_on_the_clock() {
    let mut timer = timer();
    assert_eq!(timer.next_delay_ms(), None, "idle waits on a wire");
    timer.sync_now(0);
    timer.handle(&TimerWire::Activate);
    assert_eq!(timer.next_delay_ms(), Some(10_000));
}

#[test]
fn re_activating_a_pending_timer_does_not_restart_it() {
    let mut timer = timer();
    timer.sync_now(3_000);
    timer.handle(&TimerWire::Activate);
    assert!(timer.handle(&TimerWire::Activate).is_empty());
    // still the original deadline, not one 10s from the second ask
    assert_eq!(
        timer.tick(10_000),
        vec![TimerEvent::Resolved { waited_ms: 7000 }]
    );
}

#[test]
fn cancelling_a_pending_timer_stops_the_clock() {
    let mut timer = timer();
    timer.sync_now(0);
    timer.handle(&TimerWire::Activate);
    assert_eq!(
        timer.handle(&TimerWire::Cancel),
        vec![TimerEvent::Cancelled]
    );
    assert_eq!(timer.next_delay_ms(), None);
    assert!(
        timer.tick(60_000).is_empty(),
        "a dropped future never fires"
    );
}

#[test]
fn cancelling_an_idle_timer_says_nothing() {
    let mut timer = timer();
    assert!(timer.handle(&TimerWire::Cancel).is_empty());
}

#[test]
fn the_dial_wraps_at_a_minute() {
    let mut timer = timer();
    timer.sync_now(61_500);
    assert_eq!(timer.wall_ms(), 1_500);
}

#[test]
fn the_epoch_offset_aligns_the_dial_to_the_wall() {
    // sim zero happens 4s into a minute: the first boundary is 6s later
    let mut timer = TimerSim::new(4_000);
    timer.sync_now(0);
    assert_eq!(timer.wall_ms(), 4_000);
    assert_eq!(
        timer.handle(&TimerWire::Activate),
        vec![TimerEvent::Activated {
            waiting_ms: 6_000
        }],
    );
}

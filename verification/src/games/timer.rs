//! The timer page: a future that resolves because time passed. The dial makes
//! the wait legible: awaiting at 0:07 is a three-second wait, awaiting at 0:11
//! a nine-second one.

use vstd::prelude::*;
use vstd::string::*;

use crate::clock::Ticking;
use crate::protocol::{TimerEvent, TimerSnapshot, TimerWire, TIMER_PERIOD_S};
use crate::sim::timer::TimerSim;
use crate::text::{decimal, push_decimal};

verus! {

/// Whole seconds, rounded up, and never below zero: a countdown never shows 0
/// while waiting.
pub open spec fn seconds_left(ms: int) -> nat {
    if ms <= 0 {
        0
    } else {
        ((ms + 999) / 1000) as nat
    }
}

/// Whole seconds, rounded up, so a countdown never shows 0 while waiting.
pub fn seconds(ms: i64) -> (seconds: u64)
    ensures
        seconds == seconds_left(ms as int),
{
    if ms <= 0 {
        0
    } else {
        let whole: u64 = ms as u64 / 1000;
        if ms as u64 % 1000 == 0 {
            whole
        } else {
            whole + 1
        }
    }
}

/// The nearest whole second; half a second rounds to the even one.
pub open spec fn nearest_second(ms: nat) -> nat {
    let whole = ms / 1000;
    let rest = ms % 1000;
    if rest > 500 || (rest == 500 && whole % 2 == 1) {
        whole + 1
    } else {
        whole
    }
}

/// The nearest whole second.
pub fn rounded_seconds(ms: u64) -> (seconds: u64)
    ensures
        seconds == nearest_second(ms as nat),
{
    let whole: u64 = ms / 1000;
    let rest: u64 = ms % 1000;
    if rest > 500 || (rest == 500 && whole % 2 == 1) {
        whole + 1
    } else {
        whole
    }
}

/// What the page shows after an event: only a snapshot has authority, the
/// others are cues that may be missed.
pub fn apply(state: TimerSnapshot, event: &TimerEvent) -> (shown: TimerSnapshot)
    ensures
        shown == match event {
            TimerEvent::Snapshot { state } => *state,
            _ => state,
        },
{
    match event {
        TimerEvent::Snapshot { state } => *state,
        _ => state,
    }
}

/// A command in single-player mode, against the sim in the browser; the result
/// is what the page shows from now on.
pub fn dispatch_local(sim: &mut TimerSim, wire: &TimerWire, now_ms: u64) -> (shown: TimerSnapshot)
    requires
        old(sim).wf(),
        old(sim)@.fits(now_ms),
    ensures
        final(sim).wf(),
        final(sim)@ == old(sim)@.at(now_ms).step(*wire).0,
        shown == final(sim)@.snapshot(),
{
    sim.sync_now(now_ms);
    sim.handle(wire);
    sim.snapshot()
}

/// The clock moved on in single-player mode. A sim with nothing pending is left
/// untouched: there is nothing that the clock could do to it.
pub fn tick_local<S: Ticking>(sim: &mut S, now_ms: u64) -> (events: Vec<S::Event>)
    requires
        old(sim).valid(),
        old(sim).time_fits(now_ms),
        old(sim).room() > 0,
    ensures
        final(sim).valid(),
        old(sim).delay() is None ==> *final(sim) == *old(sim) && events@.len() == 0,
        old(sim).delay() is Some ==> exists|synced: S| #[trigger]
            old(sim).synced(now_ms, &synced) && synced.polled(final(sim), events@),
{
    match sim.next_delay_ms() {
        Some(_) => sim.tick(now_ms),
        None => Vec::new(),
    }
}

/// The line under the dial.
pub open spec fn readout_text(snap: TimerSnapshot) -> Seq<char> {
    if snap.pending {
        let left = match snap.remaining_ms {
            Some(ms) => ms as int,
            None => 0,
        };
        "awaiting… resolves in "@ + decimal(seconds_left(left)) + "s"@
    } else {
        match snap.waited_ms {
            Some(waited) => "yielded "@ + decimal(nearest_second(waited as nat)) + "s waited"@,
            None => "idle — nothing is waiting"@,
        }
    }
}

/// The line under the dial.
pub fn readout(snap: &TimerSnapshot) -> (text: String)
    ensures
        text@ == readout_text(*snap),
{
    let mut text = String::new();
    if snap.pending {
        let left: i64 = match snap.remaining_ms {
            Some(ms) => ms,
            None => 0,
        };
        text.append("awaiting… resolves in ");
        push_decimal(&mut text, seconds(left));
        text.append("s");
    } else {
        match snap.waited_ms {
            Some(waited) => {
                text.append("yielded ");
                push_decimal(&mut text, rounded_seconds(waited));
                text.append("s waited");
            },
            None => text.append("idle — nothing is waiting"),
        }
    }
    assert(text@ =~= readout_text(*snap));
    text
}

/// The class of the line under the dial.
pub fn readout_class(snap: &TimerSnapshot) -> (class: &'static str)
    ensures
        class@ == (if snap.pending {
            "note-pill pending"@
        } else if snap.waited_ms is Some {
            "note-pill resolved"@
        } else {
            "note-pill"@
        }),
{
    if snap.pending {
        "note-pill pending"
    } else if snap.waited_ms.is_some() {
        "note-pill resolved"
    } else {
        "note-pill"
    }
}

/// The page's one button: what it does, and what it says.
pub fn button(snap: &TimerSnapshot) -> (button: (TimerWire, &'static str))
    ensures
        snap.pending ==> button.0 == TimerWire::Cancel && button.1@ == "Drop the future"@,
        !snap.pending ==> button.0 == TimerWire::Activate && button.1@ == "Await the timer"@,
{
    if snap.pending {
        (TimerWire::Cancel, "Drop the future")
    } else {
        (TimerWire::Activate, "Await the timer")
    }
}

/// How many instants of the minute the future can resolve at: one tick mark
/// each, evenly around the dial.
pub fn tick_count() -> (count: u64)
    ensures
        count * TIMER_PERIOD_S == 60,
{
    60 / TIMER_PERIOD_S
}

/// A countdown is honest: it shows zero exactly when no time is left, and never
/// a second more than is left.
pub proof fn law_countdown_is_honest(ms: int)
    ensures
        seconds_left(ms) == 0 <==> ms <= 0,
        ms > 0 ==> (seconds_left(ms) - 1) * 1000 < ms <= seconds_left(ms) * 1000,
{
}

/// Rounding moves by half a second at most, and a tie goes to the even second.
pub proof fn law_rounding_is_to_the_nearest(ms: nat)
    ensures
        ms <= nearest_second(ms) * 1000 + 500,
        nearest_second(ms) * 1000 <= ms + 500,
        ms % 1000 == 500 ==> nearest_second(ms) % 2 == 0,
{
}

/// The readout counts down while a future is pending, says how long it waited
/// once it has yielded, and otherwise that nothing waits.
pub proof fn law_readout_says_what_the_future_does(snap: TimerSnapshot, left: nat, waited: nat)
    ensures
        snap.pending && snap.remaining_ms is Some && left > 0 && (left - 1) * 1000
            < snap.remaining_ms->Some_0 <= left * 1000 ==> readout_text(snap)
            == "awaiting… resolves in "@ + decimal(left) + "s"@,
        snap.pending && (snap.remaining_ms is None || snap.remaining_ms->Some_0 <= 0)
            ==> readout_text(snap) == "awaiting… resolves in "@ + decimal(0) + "s"@,
        !snap.pending && snap.waited_ms is Some && waited * 1000 < snap.waited_ms->Some_0 + 500
            && snap.waited_ms->Some_0 < waited * 1000 + 500 ==> readout_text(snap) == "yielded "@
            + decimal(waited) + "s waited"@,
        !snap.pending && snap.waited_ms is None ==> readout_text(snap)
            == "idle — nothing is waiting"@,
{
}

} // verus!

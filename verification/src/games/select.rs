//! The select pages: one race between a timer and a button, and the race in a
//! loop. Both draw the same picture, two futures side by side and the winner
//! underneath; they differ only in what happens after a branch wins.

use vstd::prelude::*;
use vstd::string::*;

use crate::clock::Ticking;
use crate::games::timer::{nearest_second, rounded_seconds, seconds, seconds_left};
use crate::protocol::{
    LoopSelectEvent, LoopSelectSnapshot, LoopSelectWire, SelectEvent, SelectSnapshot, SelectWinner,
    SelectWire, TimerSnapshot, Won,
};
use crate::sim::select::{LoopSelectSim, SelectSim};
use crate::text::{decimal, push_decimal};

verus! {

/// Seconds left on the timer branch, rounded up so it never reads 0 while the
/// branch is still live.
pub fn remaining_s(timer: TimerSnapshot) -> (left: u64)
    ensures
        left == match timer.remaining_ms {
            Some(ms) => seconds_left(ms as int),
            None => 0,
        },
{
    match timer.remaining_ms {
        Some(ms) => seconds(ms),
        None => 0,
    }
}

/// The class of a branch.
pub fn branch_class(won: bool, live: bool) -> (class: &'static str)
    ensures
        class@ == (if won {
            "race-branch won"@
        } else if live {
            "race-branch live"@
        } else {
            "race-branch"@
        }),
{
    if won {
        "race-branch won"
    } else if live {
        "race-branch live"
    } else {
        "race-branch"
    }
}

/// The classes of the two branches, the timer's first. Outside a select neither
/// future exists, so both are drawn inert.
pub fn branch_classes(snap: &SelectSnapshot) -> (classes: (&'static str, &'static str))
    ensures
        classes.0@ == (if snap.winner is Some && snap.winner->0 is Timer {
            "race-branch won"@
        } else if snap.armed {
            "race-branch live"@
        } else {
            "race-branch"@
        }),
        classes.1@ == (if snap.winner is Some && snap.winner->0 is Button {
            "race-branch won"@
        } else if snap.armed {
            "race-branch live"@
        } else {
            "race-branch"@
        }),
{
    let (timer_won, button_won) = match snap.winner {
        Some(Won::Timer { .. }) => (true, false),
        Some(Won::Button { .. }) => (false, true),
        None => (false, false),
    };
    (branch_class(timer_won, snap.armed), branch_class(button_won, snap.armed))
}

/// What the timer branch shows: the time left while it races, what it yielded
/// once it is over, a dash before.
pub open spec fn countdown_text(snap: SelectSnapshot) -> Seq<char> {
    if snap.armed {
        let left = match snap.timer.remaining_ms {
            Some(ms) => seconds_left(ms as int),
            None => 0,
        };
        decimal(left) + "s"@
    } else {
        match snap.timer.waited_ms {
            Some(waited) => decimal(nearest_second(waited as nat)) + "s"@,
            None => "—"@,
        }
    }
}

/// What the timer branch shows.
pub fn countdown(snap: &SelectSnapshot) -> (text: String)
    ensures
        text@ == countdown_text(*snap),
{
    let mut text = String::new();
    if snap.armed {
        push_decimal(&mut text, remaining_s(snap.timer));
        text.append("s");
    } else {
        match snap.timer.waited_ms {
            Some(waited) => {
                push_decimal(&mut text, rounded_seconds(waited));
                text.append("s");
            },
            None => text.append("—"),
        }
    }
    assert(text@ =~= countdown_text(*snap));
    text
}

/// What a winner yielded.
pub open spec fn yielded(won: Won) -> Seq<char> {
    match won {
        Won::Timer { waited_ms } => decimal(nearest_second(waited_ms as nat)) + "s"@,
        Won::Button { color } => match color {
            crate::protocol::Color::Red => "Red"@,
            crate::protocol::Color::Green => "Green"@,
            crate::protocol::Color::Blue => "Blue"@,
        },
    }
}

fn push_yielded(text: &mut String, won: Won)
    ensures
        final(text)@ == old(text)@ + yielded(won),
{
    match won {
        Won::Timer { waited_ms } => {
            push_decimal(text, rounded_seconds(waited_ms));
            text.append("s");
        },
        Won::Button { color } => text.append(color.display()),
    }
    assert(text@ =~= old(text)@ + yielded(won));
}

/// What a cell of the tape shows.
pub fn tape_cell(entry: &SelectWinner) -> (text: String)
    ensures
        text@ == yielded(entry.won),
{
    let mut text = String::new();
    push_yielded(&mut text, entry.won);
    assert(text@ =~= yielded(entry.won));
    text
}

/// The line under the race.
pub open spec fn result_text(snap: SelectSnapshot) -> Seq<char> {
    match snap.winner {
        Some(Won::Timer { waited_ms }) => "the timer won — yielded "@ + yielded(
            Won::Timer { waited_ms },
        ),
        Some(Won::Button { color }) => "the button won — yielded "@ + yielded(
            Won::Button { color },
        ),
        None => if snap.armed {
            "awaiting both — first one wins"@
        } else {
            "not in a select"@
        },
    }
}

/// The line under the race.
pub fn result(snap: &SelectSnapshot) -> (text: String)
    ensures
        text@ == result_text(*snap),
{
    let mut text = String::new();
    match snap.winner {
        Some(Won::Timer { waited_ms }) => {
            text.append("the timer won — yielded ");
            push_yielded(&mut text, Won::Timer { waited_ms });
        },
        Some(Won::Button { color }) => {
            text.append("the button won — yielded ");
            push_yielded(&mut text, Won::Button { color });
        },
        None => if snap.armed {
            text.append("awaiting both — first one wins");
        } else {
            text.append("not in a select");
        },
    }
    assert(text@ =~= result_text(*snap));
    text
}

/// How the timer branch's countdown is drawn: running, over, or not begun.
pub fn countdown_class(snap: &SelectSnapshot) -> (class: &'static str)
    ensures
        class@ == (if snap.armed {
            "countdown"@
        } else if snap.timer.waited_ms is Some {
            "countdown done"@
        } else {
            "countdown idle"@
        }),
{
    if snap.armed {
        "countdown"
    } else if snap.timer.waited_ms.is_some() {
        "countdown done"
    } else {
        "countdown idle"
    }
}

/// How the line under the race is drawn; a button's win in that button's
/// colour.
pub fn result_class(snap: &SelectSnapshot) -> (class: String)
    ensures
        class@ == match snap.winner {
            Some(Won::Timer { .. }) => "note-pill resolved"@,
            Some(Won::Button { color }) => "note-pill resolved "@ + color.css(),
            None => if snap.armed {
                "note-pill pending"@
            } else {
                "note-pill"@
            },
        },
{
    match snap.winner {
        Some(Won::Timer { .. }) => "note-pill resolved".to_owned(),
        Some(Won::Button { color }) => {
            let mut class = "note-pill resolved ".to_owned();
            class.append(color.css_name());
            class
        },
        None => if snap.armed {
            "note-pill pending".to_owned()
        } else {
            "note-pill".to_owned()
        },
    }
}

/// Whether the buttons of the race can be pressed.
pub fn may_press(snap: &SelectSnapshot, enabled: bool) -> (may: bool)
    ensures
        may == (snap.armed && enabled),
{
    snap.armed && enabled
}

/// What the page shows after an event: only a snapshot has authority.
pub fn apply_select(state: SelectSnapshot, event: &SelectEvent) -> (shown: SelectSnapshot)
    ensures
        shown == match event {
            SelectEvent::Snapshot { state } => *state,
            _ => state,
        },
{
    match event {
        SelectEvent::Snapshot { state } => *state,
        _ => state,
    }
}

/// What the page shows after an event: only a snapshot has authority.
pub fn apply_loop(state: LoopSelectSnapshot, event: LoopSelectEvent) -> (shown: LoopSelectSnapshot)
    ensures
        shown == match event {
            LoopSelectEvent::Snapshot { state } => state,
            _ => state,
        },
{
    match event {
        LoopSelectEvent::Snapshot { state } => state,
        _ => state,
    }
}

/// A command in single-player mode, against the sim in the browser; the result
/// is what the page shows from now on.
pub fn dispatch_select(sim: &mut SelectSim, wire: &SelectWire, now_ms: u64) -> (shown:
    SelectSnapshot)
    requires
        old(sim).wf(),
        old(sim)@.fits(now_ms),
    ensures
        final(sim).wf(),
        final(sim)@ == old(sim)@.at(now_ms).step(*wire).0,
        shown == final(sim)@.snapshot(),
{
    sim.sync_now(now_ms);
    sim.handle(wire);
    sim.snapshot()
}

/// A command in single-player mode, against the sim in the browser; the result
/// is what the page shows from now on.
pub fn dispatch_loop(sim: &mut LoopSelectSim, wire: &LoopSelectWire, now_ms: u64) -> (shown:
    LoopSelectSnapshot)
    requires
        old(sim).wf(),
        old(sim)@.fits(now_ms),
        old(sim)@.rounds < u64::MAX,
    ensures
        final(sim).wf(),
        final(sim)@ == old(sim)@.at(now_ms).step(*wire).0,
        final(sim)@.shown_by(shown),
{
    sim.sync_now(now_ms);
    sim.handle(wire);
    sim.snapshot()
}

/// What the arm button says.
pub fn arm_label(armed: bool) -> (label: &'static str)
    ensures
        label@ == (if armed {
            "Restart the race"@
        } else {
            "Enter the select"@
        }),
{
    if armed {
        "Restart the race"
    } else {
        "Enter the select"
    }
}

/// The loop's button: what it does, and what it says.
pub fn loop_button(running: bool) -> (button: (LoopSelectWire, &'static str))
    ensures
        running ==> button.0 == LoopSelectWire::Stop && button.1@ == "break"@,
        !running ==> button.0 == LoopSelectWire::Start && button.1@ == "Run the loop"@,
{
    if running {
        (LoopSelectWire::Stop, "break")
    } else {
        (LoopSelectWire::Start, "Run the loop")
    }
}

/// Which round is being raced.
pub fn round_badge(rounds: u64) -> (text: String)
    requires
        rounds < u64::MAX,
    ensures
        text@ == "round "@ + decimal((rounds + 1) as nat),
{
    let mut text = "round ".to_owned();
    push_decimal(&mut text, rounds + 1);
    text
}

/// The countdown runs while both branches are awaited, stands at what the timer
/// waited once that is known, and is blank before.
pub proof fn law_countdown_runs_with_the_race(snap: SelectSnapshot, left: nat, waited: nat)
    ensures
        snap.armed && snap.timer.remaining_ms is Some && left > 0 && (left - 1) * 1000
            < snap.timer.remaining_ms->Some_0 <= left * 1000 ==> countdown_text(snap) == decimal(
            left,
        ) + "s"@,
        snap.armed && (snap.timer.remaining_ms is None || snap.timer.remaining_ms->Some_0 <= 0)
            ==> countdown_text(snap) == decimal(0) + "s"@,
        !snap.armed && snap.timer.waited_ms is Some && waited * 1000
            < snap.timer.waited_ms->Some_0 + 500 && snap.timer.waited_ms->Some_0 < waited * 1000
            + 500 ==> countdown_text(snap) == decimal(waited) + "s"@,
        !snap.armed && snap.timer.waited_ms is None ==> countdown_text(snap) == "—"@,
{
}

/// The result names the branch that won and what it yielded, whether or not
/// another race is on; without a winner it says whether one is awaited.
pub proof fn law_result_names_the_winner(snap: SelectSnapshot, waited_ms: u64, waited: nat)
    requires
        waited * 1000 < waited_ms + 500,
        waited_ms < waited * 1000 + 500,
    ensures
        snap.winner == Some(Won::Timer { waited_ms }) ==> result_text(snap)
            == "the timer won — yielded "@ + (decimal(waited) + "s"@),
        snap.winner == Some(Won::Button { color: crate::protocol::Color::Red }) ==> result_text(
            snap,
        ) == "the button won — yielded "@ + "Red"@,
        snap.winner == Some(Won::Button { color: crate::protocol::Color::Green }) ==> result_text(
            snap,
        ) == "the button won — yielded "@ + "Green"@,
        snap.winner == Some(Won::Button { color: crate::protocol::Color::Blue }) ==> result_text(
            snap,
        ) == "the button won — yielded "@ + "Blue"@,
        snap.winner is None && snap.armed ==> result_text(snap)
            == "awaiting both — first one wins"@,
        snap.winner is None && !snap.armed ==> result_text(snap) == "not in a select"@,
{
}

} // verus!

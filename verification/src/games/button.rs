//! The button page: one future, three buttons, real I/O.

use vstd::prelude::*;

use crate::protocol::{ButtonEvent, ButtonState, ButtonWire, Color};
use crate::sim::button::{button_step, ButtonSim};

verus! {

/// What the page shows after an event.
pub open spec fn shown_after(state: ButtonState, event: ButtonEvent) -> ButtonState {
    match event {
        ButtonEvent::Snapshot { state } => state,
        ButtonEvent::Activated => ButtonState::Pending,
        ButtonEvent::Resolved { color } => ButtonState::Ready(color),
    }
}

/// What the page shows after an event.
pub fn apply_button_event(state: ButtonState, event: &ButtonEvent) -> (shown: ButtonState)
    ensures
        shown == shown_after(state, *event),
{
    match event {
        ButtonEvent::Snapshot { state } => *state,
        ButtonEvent::Activated => ButtonState::Pending,
        ButtonEvent::Resolved { color } => ButtonState::Ready(*color),
    }
}

/// A command in single-player mode, against the sim in the browser; the result
/// is what the page shows from now on.
pub fn dispatch_local(sim: &mut ButtonSim, wire: &ButtonWire) -> (shown: ButtonState)
    requires
        old(sim).wf(),
    ensures
        final(sim).wf(),
        final(sim)@ == button_step(old(sim)@, *wire).0,
        shown == final(sim)@,
{
    let mut shown = sim.state();
    let events = sim.handle(wire);
    if events.len() > 0 {
        shown = apply_button_event(shown, &events[0]);
    }
    shown
}

/// The class of the dot that stands for the future.
pub fn dot_class(state: ButtonState) -> (class: &'static str)
    ensures
        class@ == match state {
            ButtonState::Idle => "future-pad"@,
            ButtonState::Pending => "future-pad pending"@,
            ButtonState::Ready(_) => "future-pad resolved"@,
        },
{
    match state {
        ButtonState::Idle => "future-pad",
        ButtonState::Pending => "future-pad pending",
        ButtonState::Ready(_) => "future-pad resolved",
    }
}

/// What the dot says.
pub fn dot_label(state: ButtonState) -> (label: &'static str)
    ensures
        label@ == match state {
            ButtonState::Idle => "idle"@,
            ButtonState::Pending => "pending"@,
            ButtonState::Ready(_) => "resolved"@,
        },
{
    match state {
        ButtonState::Idle => "idle",
        ButtonState::Pending => "pending",
        ButtonState::Ready(_) => "resolved",
    }
}

/// The colour that the future yielded.
pub fn resolved(state: ButtonState) -> (color: Option<Color>)
    ensures
        color == match state {
            ButtonState::Ready(color) => Some(color),
            _ => None,
        },
{
    match state {
        ButtonState::Ready(color) => Some(color),
        _ => None,
    }
}

/// Whether a new future can be created: not while one is pending.
pub fn may_create(state: ButtonState) -> (may: bool)
    ensures
        may == !(state is Pending),
{
    match state {
        ButtonState::Pending => false,
        _ => true,
    }
}

/// The note under the page: a resolved future is used up.
pub fn footer_note(state: ButtonState) -> (note: &'static str)
    ensures
        note@ == (if state is Ready {
            "the resolved future is consumed — start a new one"@
        } else {
            ""@
        }),
{
    match state {
        ButtonState::Ready(_) => "the resolved future is consumed — start a new one",
        _ => "",
    }
}

/// The events tell the whole story: following them one by one leads the page to
/// the state that the future is in.
pub proof fn law_events_tell_the_whole_story(state: ButtonState, wire: ButtonWire)
    ensures
        ({
            let (after, events) = button_step(state, wire);
            after == if events.len() == 0 {
                state
            } else {
                shown_after(state, events[0])
            }
        }),
        button_step(state, wire).1.len() <= 1,
{
}

/// A snapshot is shown as it is, whatever was shown before.
pub proof fn law_snapshot_replaces_what_is_shown(shown: ButtonState, state: ButtonState)
    ensures
        shown_after(shown, ButtonEvent::Snapshot { state }) == state,
{
}

} // verus!

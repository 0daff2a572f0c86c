//! The button future: one future, three buttons.

use vstd::prelude::*;

use crate::channels::oneshot::{OneshotCore, OneshotState, Slot};
use crate::protocol::{ButtonEvent, ButtonState, ButtonWire, Color};

verus! {

/// The button future: a one-shot channel whose value is the colour that
/// resolved it. Activating creates the channel, pressing a button sends the
/// one value it will ever carry.
///
/// `state` is a projection of the core; the channel itself is the truth.
pub struct ButtonSim {
    pending: Option<OneshotCore<Color>>,
    pub state: ButtonState,
}

/// What a command does to the future, and what it announces.
pub open spec fn button_step(state: ButtonState, wire: ButtonWire) -> (ButtonState, Seq<
    ButtonEvent,
>) {
    match wire {
        // a resolved future is consumed; activating creates a new one
        ButtonWire::Activate => if state is Pending {
            (state, seq![])
        } else {
            (ButtonState::Pending, seq![ButtonEvent::Activated])
        },
        // one value moves exactly once: only a pending future takes it
        ButtonWire::Press { color } => if state is Pending {
            (ButtonState::Ready(color), seq![ButtonEvent::Resolved { color }])
        } else {
            (state, seq![])
        },
    }
}

impl View for ButtonSim {
    type V = ButtonState;

    closed spec fn view(&self) -> ButtonState {
        self.state
    }
}

impl Default for ButtonSim {
    fn default() -> (sim: Self)
        ensures
            sim.wf(),
            sim@ == ButtonState::Idle,
    {
        Self::new()
    }
}

impl ButtonSim {
    /// The channel behind the future, once there is one.
    pub closed spec fn channel(&self) -> Option<OneshotState<Color>> {
        match self.pending {
            Some(core) => Some(core@),
            None => None,
        }
    }

    /// The state says what the channel holds.
    pub closed spec fn wf(&self) -> bool {
        match (self.state, self.pending) {
            (ButtonState::Idle, None) => true,
            (ButtonState::Pending, Some(core)) => core.wf() && core@.slot is Empty,
            (ButtonState::Ready(color), Some(core)) => core.wf() && core@.slot == Slot::Value(
                color,
            ),
            _ => false,
        }
    }

    /// No future yet.
    pub fn new() -> (sim: Self)
        ensures
            sim.wf(),
            sim@ == ButtonState::Idle,
    {
        ButtonSim { pending: None, state: ButtonState::Idle }
    }

    /// What the future is doing.
    pub fn state(&self) -> (state: ButtonState)
        ensures
            state == self@,
    {
        self.state
    }

    /// Carry out a command and announce what happened.
    pub fn handle(&mut self, wire: &ButtonWire) -> (events: Vec<ButtonEvent>)
        requires
            old(self).wf(),
        ensures
            final(self).wf(),
            (final(self)@, events@) == button_step(old(self)@, *wire),
    {
        let mut events: Vec<ButtonEvent> = Vec::new();
        match wire {
            ButtonWire::Activate => {
                if self.state != ButtonState::Pending {
                    self.pending = Some(OneshotCore::new());
                    self.state = ButtonState::Pending;
                    events.push(ButtonEvent::Activated);
                }
            },
            ButtonWire::Press { color } => {
                match &mut self.pending {
                    Some(core) => match core.send(*color) {
                        Ok(()) => {
                            self.state = ButtonState::Ready(*color);
                            events.push(ButtonEvent::Resolved { color: *color });
                        },
                        Err(_) => {},
                    },
                    None => {},
                }
            },
        }
        assert(events@ =~= button_step(old(self).state, *wire).1);
        events
    }
}

/// The game agrees with the channel it drives: a pending future is a channel
/// that nothing was sent on, and a resolved one carries the colour.
pub proof fn law_driver_agrees_with_the_channel(sim: &ButtonSim)
    requires
        sim.wf(),
    ensures
        match sim@ {
            ButtonState::Idle => sim.channel() is None,
            ButtonState::Pending => sim.channel() matches Some(channel) && channel.slot is Empty,
            ButtonState::Ready(color) => sim.channel() matches Some(channel) && channel.slot
                == Slot::Value(color),
        },
{
}

/// A future yields one value: until the next activation, the colour that
/// resolved it stays, whatever is pressed afterwards.
pub proof fn law_first_press_wins(first: Color, second: Color)
    ensures
        ({
            let resolved = button_step(ButtonState::Pending, ButtonWire::Press { color: first }).0;
            &&& resolved == ButtonState::Ready(first)
            &&& button_step(resolved, ButtonWire::Press { color: second }) == (
                resolved,
                Seq::<ButtonEvent>::empty(),
            )
            &&& button_step(resolved, ButtonWire::Activate).0 == ButtonState::Pending
        }),
{
}

/// Activating starts a future unless one is pending; only a pending one takes
/// a colour. Whatever happens is announced once, and nothing else is.
pub proof fn law_only_a_pending_future_resolves(state: ButtonState, color: Color)
    ensures
        ({
            let (activated, started) = button_step(state, ButtonWire::Activate);
            let (pressed, resolved) = button_step(state, ButtonWire::Press { color });
            &&& activated is Pending
            &&& state is Pending ==> started == Seq::<ButtonEvent>::empty()
            &&& !(state is Pending) ==> started == seq![ButtonEvent::Activated]
            &&& state is Pending ==> pressed == ButtonState::Ready(color)
            &&& state is Pending ==> resolved == seq![ButtonEvent::Resolved { color }]
            &&& !(state is Pending) ==> pressed == state
            &&& !(state is Pending) ==> resolved == Seq::<ButtonEvent>::empty()
        }),
{
}

} // verus!

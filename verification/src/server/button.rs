//! The button actor: one future, resolved by whoever presses first.

use vstd::prelude::*;

use crate::protocol::{ButtonEvent, ButtonState, ButtonWire, Color, Role};
use crate::server::session::Client;
use crate::sim::button::{button_step, ButtonSim};

verus! {

/// What the sockets tell the actor.
#[derive(Debug, Clone, Copy, PartialEq, Eq, Structural)]
pub enum ButtonMsg {
    Press { color: Color },
    Activate,
    /// Ask for the current state.
    Get,
}

/// The actor.
pub struct ButtonService {
    sim: ButtonSim,
}

impl View for ButtonService {
    type V = ButtonState;

    closed spec fn view(&self) -> ButtonState {
        self.sim@
    }
}

impl Default for ButtonService {
    fn default() -> (service: Self)
        ensures
            service.wf(),
            service@ == ButtonState::Idle,
    {
        ButtonService { sim: ButtonSim::new() }
    }
}

impl ButtonService {
    /// The sim's invariant.
    pub closed spec fn wf(&self) -> bool {
        self.sim.wf()
    }

    /// Carry out one message: what to answer, and what to publish.
    pub fn handle(&mut self, msg: &ButtonMsg) -> (out: (Option<ButtonState>, Vec<ButtonEvent>))
        requires
            old(self).wf(),
        ensures
            final(self).wf(),
            match msg {
                ButtonMsg::Get => {
                    &&& final(self)@ == old(self)@
                    &&& out.0 == Some(old(self)@)
                    &&& out.1@.len() == 0
                },
                ButtonMsg::Press { color } => {
                    &&& out.0 is None
                    &&& (final(self)@, out.1@) == button_step(
                        old(self)@,
                        ButtonWire::Press { color: *color },
                    )
                },
                ButtonMsg::Activate => {
                    &&& out.0 is None
                    &&& (final(self)@, out.1@) == button_step(old(self)@, ButtonWire::Activate)
                },
            },
    {
        let wire = match msg {
            ButtonMsg::Press { color } => ButtonWire::Press { color: *color },
            ButtonMsg::Activate => ButtonWire::Activate,
            ButtonMsg::Get => {
                return (Some(self.sim.state()), Vec::new());
            },
        };
        (None, self.sim.handle(&wire))
    }
}

/// What a command arriving on a connection asks of the actor: spectators watch
/// the future resolve, they do not get to be the I/O that resolves it.
pub open spec fn request(role: Role, wire: ButtonWire) -> Option<ButtonMsg> {
    if role is Spectator {
        None
    } else {
        Some(
            match wire {
                ButtonWire::Activate => ButtonMsg::Activate,
                ButtonWire::Press { color } => ButtonMsg::Press { color },
            },
        )
    }
}

/// What a command from a connection asks of the actor.
pub fn on_wire(role: Role, wire: &ButtonWire) -> (msg: Option<ButtonMsg>)
    ensures
        msg == request(role, *wire),
{
    if !role.may_play() {
        return None;
    }
    match wire {
        ButtonWire::Activate => Some(ButtonMsg::Activate),
        ButtonWire::Press { color } => Some(ButtonMsg::Press { color: *color }),
    }
}

/// One connection: what it may do.
#[derive(Debug, Clone, Copy, PartialEq, Eq, Structural)]
pub struct ButtonSocket {
    pub role: Role,
}

impl Client for ButtonSocket {
    type Msg = ButtonMsg;

    type Reply = Option<ButtonState>;

    type Event = ButtonEvent;

    type Wire = ButtonWire;

    open spec fn joins(&self) -> Option<ButtonMsg> {
        None
    }

    open spec fn greeting(&self) -> Option<ButtonEvent> {
        None
    }

    open spec fn query(&self) -> ButtonMsg {
        ButtonMsg::Get
    }

    open spec fn state_in(&self, reply: Option<ButtonState>) -> Option<ButtonEvent> {
        match reply {
            Some(state) => Some(ButtonEvent::Snapshot { state }),
            None => None,
        }
    }

    open spec fn patient(&self) -> bool {
        true
    }

    open spec fn blank(&self, event: ButtonEvent) -> bool {
        event matches ButtonEvent::Snapshot { state } && state is Idle
    }

    open spec fn asks(&self, wire: ButtonWire) -> Option<ButtonMsg> {
        request(self.role, wire)
    }

    open spec fn learns(&self, reply: Option<ButtonState>, after: &Self) -> bool {
        *after == *self
    }

    open spec fn question(&self) -> Option<ButtonMsg> {
        None
    }

    open spec fn farewells(&self, known: Option<Option<ButtonState>>) -> Seq<ButtonMsg> {
        Seq::empty()
    }

    fn join(&self) -> (msg: Option<ButtonMsg>) {
        None
    }

    fn hello(&self) -> (event: Option<ButtonEvent>) {
        None
    }

    fn get(&self) -> (msg: ButtonMsg) {
        ButtonMsg::Get
    }

    fn state(&self, reply: Option<ButtonState>) -> (event: Option<ButtonEvent>) {
        match reply {
            Some(state) => Some(ButtonEvent::Snapshot { state }),
            None => None,
        }
    }

    fn stand_in(&self) -> (event: Option<ButtonEvent>) {
        Some(ButtonEvent::Snapshot { state: ButtonState::Idle })
    }

    fn ask(&self, wire: ButtonWire) -> (msg: Option<ButtonMsg>) {
        on_wire(self.role, &wire)
    }

    fn learn(&mut self, reply: Option<ButtonState>) {
    }

    fn leaving(&self) -> (msg: Option<ButtonMsg>) {
        None
    }

    fn farewell(&self, known: Option<Option<ButtonState>>) -> (msgs: Vec<ButtonMsg>) {
        Vec::new()
    }
}

/// Spectators only watch: whatever they send, the actor hears nothing of it.
pub proof fn law_spectators_only_watch(wire: ButtonWire)
    ensures
        request(Role::Spectator, wire) is None,
{
}

/// What a connection may ask for is what the future hears: everyone but a
/// spectator creates it, and resolves it with the colour that was pressed.
pub proof fn law_requests_are_carried_out(role: Role, color: Color)
    ensures
        request(role, ButtonWire::Activate) == if role is Spectator {
            None
        } else {
            Some(ButtonMsg::Activate)
        },
        request(role, ButtonWire::Press { color }) == if role is Spectator {
            None
        } else {
            Some(ButtonMsg::Press { color })
        },
{
}

/// What the session knows of a button client: it is shown the state in the
/// answer, heard as its role allows, and leaves without a word.
pub proof fn law_client_leaves_without_a_word(
    client: ButtonSocket,
    state: ButtonState,
    wire: ButtonWire,
)
    ensures
        client.joins() is None,
        client.greeting() is None,
        client.query() == ButtonMsg::Get,
        client.state_in(Some(state)) == Some(ButtonEvent::Snapshot { state }),
        client.asks(wire) == request(client.role, wire),
        client.question() is None,
        client.farewells(None).len() == 0,
        client.patient(),
{
}

/// No answer changes who the client is, and what stands for an answer that did
/// not come is the picture of a fresh game.
pub proof fn law_client_keeps_its_identity(
    client: ButtonSocket,
    reply: Option<ButtonState>,
    after: ButtonSocket,
    event: ButtonEvent,
)
    requires
        client.learns(reply, &after),
    ensures
        after == client,
        client.blank(event) <==> event is Snapshot && event->state is Idle,
{
}

} // verus!

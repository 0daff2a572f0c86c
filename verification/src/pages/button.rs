//! The page of the button game.

use vstd::prelude::*;

use crate::deck::GameMode;
use crate::games::button::{
    apply_button_event, dispatch_local, footer_note, may_create, resolved, shown_after,
};
use crate::games::mpsc::restart;
use crate::protocol::{AppUp, ButtonEvent, ButtonState, ButtonWire, Color, Game};
use crate::sim::button::{button_step, ButtonSim};

verus! {

/// What the page holds.
pub struct ButtonPage {
    pub mode: GameMode,
    /// The game itself, in single-player mode.
    pub sim: ButtonSim,
    pub state: ButtonState,
}

/// What the page shows.
#[derive(Debug, Clone, Copy)]
pub struct ButtonView {
    /// What the future yielded.
    pub yielded: Option<Color>,
    /// There are pads to press.
    pub plays: bool,
    /// There is a button to create a future, and it works.
    pub shows_create: bool,
    pub may_create: bool,
    pub may_press: bool,
    pub note: &'static str,
    /// There is a restart button.
    pub presents: bool,
}

impl ButtonPage {
    /// The invariant that everything keeps.
    pub open spec fn wf(&self) -> bool {
        self.sim.wf()
    }

    /// A page as it is mounted.
    pub fn open(mode: GameMode) -> (page: Self)
        ensures
            page.wf(),
            page.mode == mode,
            page.sim@ is Idle,
            page.state is Idle,
    {
        ButtonPage { mode, sim: ButtonSim::new(), state: ButtonState::Idle }
    }

    /// The server said something.
    pub fn hear(&mut self, event: &ButtonEvent)
        requires
            old(self).wf(),
        ensures
            final(self).wf(),
            final(self).mode == old(self).mode,
            final(self).sim == old(self).sim,
            final(self).state == shown_after(old(self).state, *event),
    {
        self.state = apply_button_event(self.state, event);
    }

    /// The viewer gives a command: in single-player mode the game takes it at
    /// once, in multiplayer mode it is to be sent. Yields what is to be sent.
    pub fn act(&mut self, command: ButtonWire) -> (send: Option<ButtonWire>)
        requires
            old(self).wf(),
        ensures
            final(self).wf(),
            match old(self).mode {
                GameMode::Local => {
                    &&& send is None
                    &&& final(self).mode == old(self).mode
                    &&& final(self).sim@ == button_step(old(self).sim@, command).0
                    &&& final(self).state == final(self).sim@
                },
                GameMode::Remote => {
                    &&& send == Some(command)
                    &&& *final(self) == *old(self)
                },
            },
    {
        match self.mode {
            GameMode::Local => {
                self.state = dispatch_local(&mut self.sim, &command);
                None
            },
            GameMode::Remote => Some(command),
        }
    }

    /// The restart button: the single-player game starts over, a multiplayer
    /// game is restarted by the server. Yields what is to be asked of it.
    pub fn restart(&mut self) -> (ask: Option<AppUp>)
        requires
            old(self).wf(),
        ensures
            final(self).wf(),
            match old(self).mode {
                GameMode::Local => {
                    &&& ask is None
                    &&& final(self).mode == old(self).mode
                    &&& final(self).sim@ is Idle
                    &&& final(self).state is Idle
                },
                GameMode::Remote => {
                    &&& ask == Some(AppUp::Restart { game: Game::Button })
                    &&& *final(self) == *old(self)
                },
            },
    {
        let ask = restart(self.mode, Game::Button);
        if ask.is_none() {
            self.sim = ButtonSim::new();
            self.state = ButtonState::Idle;
        }
        ask
    }

    /// What the page shows: a future can be created unless one is pending, and
    /// only a pending one can be resolved. A spectator gets no buttons.
    pub fn view(&self, connected: bool, may_play: bool, may_present: bool) -> (view: ButtonView)
        ensures
            view.yielded == match self.state {
                ButtonState::Ready(color) => Some(color),
                _ => None,
            },
            view.plays == may_play,
            view.shows_create == (may_play && !(self.state is Pending)),
            view.may_create == (connected && may_play),
            view.may_press == (connected && may_play && self.state is Pending),
            view.note@ == (if self.state is Ready {
                "the resolved future is consumed — start a new one"@
            } else {
                ""@
            }),
            view.presents == may_present,
    {
        let idle = may_create(self.state);
        ButtonView {
            yielded: resolved(self.state),
            plays: may_play,
            shows_create: may_play && idle,
            may_create: connected && may_play,
            may_press: connected && may_play && !idle,
            note: footer_note(self.state),
            presents: may_present,
        }
    }
}

} // verus!

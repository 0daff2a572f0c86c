//! A page's connection to its game: whether it is up, and the line that says
//! so.

use vstd::prelude::*;

use crate::client::{connected, first_status, status, status_line, Link};
use crate::deck::GameMode;

verus! {

/// What happens to a page's socket.
#[derive(Debug, Clone, Copy, PartialEq, Eq, Structural)]
pub enum LinkEvent {
    Opened,
    /// A frame came in.
    Message,
    Closed { code: u16 },
    /// The next attempt is this far away.
    Retrying { after_s: u64 },
    /// It is time for a sign of life.
    Ping,
}

/// What is to be done about it.
#[derive(Debug, Clone, Copy, PartialEq, Eq, Structural)]
pub enum LinkAction {
    /// Send from the new socket from now on.
    Keep,
    /// Decode the frame and hand it to the page.
    Deliver,
    /// Send from no socket any more.
    Forget,
    SendKeepalive,
    Nothing,
}

/// The connection of a page.
#[derive(Debug)]
pub struct GameLink {
    pub mode: GameMode,
    /// The socket is open.
    pub ready: bool,
    pub status: String,
}

impl GameLink {
    /// The connection of a page that was just mounted. A single-player page
    /// never connects.
    pub fn open(mode: GameMode) -> (link: Self)
        ensures
            link.mode == mode,
            !link.ready,
            link.status@ == match mode {
                GameMode::Local => "single-player"@,
                GameMode::Remote => "connecting…"@,
            },
    {
        GameLink { mode, ready: false, status: first_status(mode) }
    }

    /// Whether commands get through; in single-player mode they always do.
    pub fn connected(&self) -> (connected: bool)
        ensures
            connected == (self.mode is Local || self.ready),
    {
        connected(self.mode, self.ready)
    }

    /// Something happened to the socket.
    pub fn hear(&mut self, event: LinkEvent) -> (action: LinkAction)
        ensures
            final(self).mode == old(self).mode,
            final(self).ready == match event {
                LinkEvent::Opened => true,
                LinkEvent::Closed { .. } => false,
                _ => old(self).ready,
            },
            final(self).status@ == match event {
                LinkEvent::Opened => status_line(Link::Opened),
                LinkEvent::Closed { code } => status_line(Link::Closed { code }),
                LinkEvent::Retrying { after_s } => status_line(Link::Retrying { after_s }),
                _ => old(self).status@,
            },
            action == match event {
                LinkEvent::Opened => LinkAction::Keep,
                LinkEvent::Message => LinkAction::Deliver,
                LinkEvent::Closed { .. } => LinkAction::Forget,
                LinkEvent::Retrying { .. } => LinkAction::Nothing,
                LinkEvent::Ping => LinkAction::SendKeepalive,
            },
    {
        match event {
            LinkEvent::Opened => {
                self.ready = true;
                self.status = status(Link::Opened);
                LinkAction::Keep
            },
            LinkEvent::Message => LinkAction::Deliver,
            LinkEvent::Closed { code } => {
                self.ready = false;
                self.status = status(Link::Closed { code });
                LinkAction::Forget
            },
            LinkEvent::Retrying { after_s } => {
                self.status = status(Link::Retrying { after_s });
                LinkAction::Nothing
            },
            LinkEvent::Ping => LinkAction::SendKeepalive,
        }
    }

    /// The game was restarted: the line is back to what it said at first.
    pub fn reset(&mut self)
        ensures
            final(self).mode == old(self).mode,
            final(self).ready == old(self).ready,
            final(self).status@ == match old(self).mode {
                GameMode::Local => "single-player"@,
                GameMode::Remote => "connecting…"@,
            },
    {
        self.status = first_status(self.mode);
    }
}

} // verus!

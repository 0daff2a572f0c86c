//! The app plane: the slide everybody sees, who may turn it, and what a
//! connection is told about itself. Also what every socket decides alike.

use vstd::prelude::*;

use crate::protocol::{AppDown, AppUp, Game, Role, KEEPALIVE, SLIDE_COUNT};
use crate::server::auth::{configured, Identity};
use crate::server::tickets::Headcount;
use crate::text::{
    copy_text, hex, push_hex, same_text, text_of, trim_trailing_slashes, without_trailing_slashes,
};

verus! {

/// Environment variable holding the public base URL of the deck, e.g.
/// `https://more-actors-with-tokio.fly.dev`.
pub const JOIN_URL_ENV: &'static str = "JOIN_URL";

/// Environment variable holding the presenter secret.
pub const PRESENTER_KEY_ENV: &'static str = "PRESENTER_KEY";

/// How long a connection may stay silent before it is treated as gone, in
/// milliseconds. Clients ping every 3s, so this is about eight missed pings:
/// long enough that a phone backgrounded mid-talk keeps its handle, short
/// enough that a crashed tab frees one.
pub const DEAD_PEER_TIMEOUT_MS: u64 = 25000;

/// Whether a connection that has been silent for so long is gone.
pub fn is_dead_peer(silent_ms: u64) -> (dead: bool)
    ensures
        dead == (silent_ms > DEAD_PEER_TIMEOUT_MS),
{
    silent_ms > DEAD_PEER_TIMEOUT_MS
}

/// Whether a frame is the client's keep-alive rather than a command.
pub fn is_keepalive(frame: &str) -> (keepalive: bool)
    ensures
        keepalive == (frame@ == KEEPALIVE@),
{
    same_text(frame, KEEPALIVE)
}

/// What a command on the app plane leads to.
#[derive(Debug, Clone, Copy, PartialEq, Eq, Structural)]
pub enum AppAction {
    /// Everybody sees this slide now.
    Show { slide: usize },
    /// Tear this game's actor down and start a fresh one.
    Restart { game: Game },
}

/// What a command leads to, if the role allows it. Every command drives the
/// room, so every command is the presenter's alone. The deck wraps around.
pub open spec fn ruling(role: Role, slide: usize, command: AppUp) -> Option<AppAction> {
    if role is Presenter {
        Some(
            match command {
                AppUp::AdvanceSlide => AppAction::Show {
                    slide: ((slide + 1) % (SLIDE_COUNT as int)) as usize,
                },
                AppUp::PreviousSlide => AppAction::Show {
                    slide: ((slide + SLIDE_COUNT - 1) % (SLIDE_COUNT as int)) as usize,
                },
                AppUp::Restart { game } => AppAction::Restart { game },
            },
        )
    } else {
        None
    }
}

/// Rule on a command from the app plane.
pub fn rule(role: Role, slide: usize, command: AppUp) -> (action: Option<AppAction>)
    requires
        role is Presenter && command is AdvanceSlide ==> slide + 1 <= usize::MAX,
        role is Presenter && command is PreviousSlide ==> slide + SLIDE_COUNT - 1 <= usize::MAX,
    ensures
        action == ruling(role, slide, command),
{
    if !role.may_present() {
        return None;
    }
    match command {
        AppUp::AdvanceSlide => Some(AppAction::Show { slide: (slide + 1) % SLIDE_COUNT }),
        AppUp::PreviousSlide => Some(
            AppAction::Show { slide: (slide + (SLIDE_COUNT - 1)) % SLIDE_COUNT },
        ),
        AppUp::Restart { game } => Some(AppAction::Restart { game }),
    }
}

/// What happens to a socket of the app plane.
#[derive(Debug, Clone, Copy, PartialEq, Eq, Structural)]
pub enum PlaneEvent {
    /// The client was let in.
    Joined,
    /// The slide turned.
    Turned,
    /// The slide will never turn again.
    SlideGone,
    /// A payload went out to the client, or did not.
    Sent { ok: bool },
    /// A text frame. The command it holds; `None` if it cannot be decoded.
    Text { command: Option<AppUp> },
    /// The command was ruled on.
    Ruled,
    /// A frame that is no text, a broken connection, or its end.
    Gone,
}

/// What is to be done about it.
#[derive(Debug, Clone, Copy, PartialEq, Eq, Structural)]
pub enum PlaneAction {
    /// Send the client a payload, with its ticket or without.
    Push { include_ticket: bool },
    /// Rule on the command and carry out what that leads to.
    Rule { command: AppUp },
    /// Wait until something happens.
    Listen,
    /// Hand the ticket back and stop.
    Depart,
}

/// What a socket of the app plane does about an event: a client hears where the
/// deck is when it comes and whenever the slide turns, and its commands are
/// ruled on. It leaves once it cannot be reached.
pub open spec fn attended(event: PlaneEvent) -> PlaneAction {
    match event {
        PlaneEvent::Joined => PlaneAction::Push { include_ticket: true },
        PlaneEvent::Turned => PlaneAction::Push { include_ticket: false },
        PlaneEvent::Sent { ok: true } => PlaneAction::Listen,
        PlaneEvent::Text { command: Some(command) } => PlaneAction::Rule { command },
        PlaneEvent::Text { command: None } => PlaneAction::Listen,
        PlaneEvent::Ruled => PlaneAction::Listen,
        PlaneEvent::SlideGone => PlaneAction::Depart,
        PlaneEvent::Sent { ok: false } => PlaneAction::Depart,
        PlaneEvent::Gone => PlaneAction::Depart,
    }
}

/// What a socket of the app plane does about an event.
pub fn attend(event: PlaneEvent) -> (action: PlaneAction)
    ensures
        action == attended(event),
{
    match event {
        PlaneEvent::Joined => PlaneAction::Push { include_ticket: true },
        PlaneEvent::Turned => PlaneAction::Push { include_ticket: false },
        PlaneEvent::Sent { ok } => if ok {
            PlaneAction::Listen
        } else {
            PlaneAction::Depart
        },
        PlaneEvent::Text { command } => match command {
            Some(command) => PlaneAction::Rule { command },
            None => PlaneAction::Listen,
        },
        PlaneEvent::Ruled => PlaneAction::Listen,
        PlaneEvent::SlideGone => PlaneAction::Depart,
        PlaneEvent::Gone => PlaneAction::Depart,
    }
}

/// The app plane's payload for one connection.
///
/// The granted ticket is only worth sending once, on the first push, when the
/// client may not have one yet. The join URL is for the presenter alone:
/// putting it in every payload would hand the audience the address to share
/// onward.
pub fn app_down(
    slide: usize,
    identity: &Identity,
    include_ticket: bool,
    headcount: &Headcount,
    join_url: &Option<String>,
) -> (down: AppDown)
    ensures
        down.slide == slide,
        down.role == identity.role,
        down.seat == identity.seat,
        text_of(down.granted_ticket) == (if include_ticket {
            text_of(identity.ticket)
        } else {
            None
        }),
        down.players_present == headcount.present,
        down.players_capacity == headcount.capacity,
        text_of(down.join_url) == (if identity.role is Presenter {
            text_of(*join_url)
        } else {
            None
        }),
{
    let granted_ticket = if include_ticket {
        copy_text(&identity.ticket)
    } else {
        None
    };
    let join_url = if identity.may_present() {
        copy_text(join_url)
    } else {
        None
    };
    AppDown {
        slide,
        role: identity.role,
        seat: identity.seat,
        granted_ticket,
        players_present: headcount.present,
        players_capacity: headcount.capacity,
        join_url,
    }
}

/// The address the audience scans, from what the environment says: nothing if
/// it says nothing, and without the slashes at its end.
pub fn join_url(raw: Option<String>) -> (url: Option<String>)
    ensures
        text_of(url) == match raw {
            Some(raw) if raw@.len() > 0 => Some(without_trailing_slashes(raw@)),
            _ => None,
        },
{
    match configured(raw) {
        Some(url) => Some(trim_trailing_slashes(url.as_str())),
        None => None,
    }
}

/// A presenter key made from a random number, for a run that was given none.
pub fn generated_key(random: u64) -> (key: String)
    ensures
        key@ == hex(random as nat, 16),
{
    let mut key = String::new();
    push_hex(&mut key, random, 16);
    assert(key@ =~= hex(random as nat, 16));
    key
}

/// The presenter key of this run, and whether it had to be made up. Nobody may
/// present without a key, so a run that was given none makes one up: the room
/// cannot present, whoever reads the logs can.
pub fn presenter_key(raw: Option<String>, random: u64) -> (key: (String, bool))
    ensures
        match raw {
            Some(raw) if raw@.len() > 0 => key.0@ == raw@ && !key.1,
            _ => key.0@ == hex(random as nat, 16) && key.1,
        },
{
    match configured(raw) {
        Some(key) => (key, false),
        None => (generated_key(random), true),
    }
}

/// Turning back undoes turning on, and the other way around.
pub proof fn law_turning_back_undoes_turning_on(slide: usize)
    requires
        slide < SLIDE_COUNT,
    ensures
        ({
            let on = (ruling(Role::Presenter, slide, AppUp::AdvanceSlide)->0)->slide;
            let back = (ruling(Role::Presenter, slide, AppUp::PreviousSlide)->0)->slide;
            &&& on < SLIDE_COUNT
            &&& back < SLIDE_COUNT
            &&& ruling(Role::Presenter, on, AppUp::PreviousSlide) == Some(AppAction::Show { slide })
            &&& ruling(Role::Presenter, back, AppUp::AdvanceSlide) == Some(
                AppAction::Show { slide },
            )
        }),
{
}

/// A ticket is granted once: after the first push, no payload carries it.
pub proof fn law_ticket_is_granted_once(event: PlaneEvent)
    requires
        !(event is Joined),
    ensures
        attended(event) != (PlaneAction::Push { include_ticket: true }),
{
}

/// Only the presenter drives the room: anybody else's command leads to
/// nothing.
pub proof fn law_only_the_presenter_drives(role: Role, slide: usize, command: AppUp)
    requires
        !(role is Presenter),
    ensures
        ruling(role, slide, command) is None,
{
}

/// A presenter's command turns the deck by one slide, around its ends, or
/// restarts the game that it names.
pub proof fn law_deck_turns_by_one(slide: usize, game: Game)
    requires
        slide < SLIDE_COUNT,
    ensures
        ruling(Role::Presenter, slide, AppUp::AdvanceSlide) == Some(
            AppAction::Show {
                slide: if slide == SLIDE_COUNT - 1 {
                    0
                } else {
                    (slide + 1) as usize
                },
            },
        ),
        ruling(Role::Presenter, slide, AppUp::PreviousSlide) == Some(
            AppAction::Show {
                slide: if slide == 0 {
                    (SLIDE_COUNT - 1) as usize
                } else {
                    (slide - 1) as usize
                },
            },
        ),
        ruling(Role::Presenter, slide, AppUp::Restart { game }) == Some(
            AppAction::Restart { game },
        ),
{
}

/// A client hears where the deck is when it comes, with its ticket, and
/// whenever the slide turns; its commands are ruled on as they are; and it
/// departs exactly once it cannot be reached.
pub proof fn law_clients_are_kept_up_to_date(event: PlaneEvent, command: AppUp)
    ensures
        attended(PlaneEvent::Joined) == (PlaneAction::Push { include_ticket: true }),
        attended(PlaneEvent::Turned) == (PlaneAction::Push { include_ticket: false }),
        attended(PlaneEvent::Text { command: Some(command) }) == (PlaneAction::Rule { command }),
        attended(event) is Push ==> event is Joined || event is Turned,
        attended(event) is Rule ==> event is Text,
        attended(event) is Depart <==> event is Gone || event is SlideGone || event == (
        PlaneEvent::Sent { ok: false }),
{
}

} // verus!

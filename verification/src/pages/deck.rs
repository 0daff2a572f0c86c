//! The deck itself: which slide is on show, who the viewer is, the join code
//! and the navigation bar.

use vstd::prelude::*;

use crate::deck::{
    badge, can_step, counter, key_action, law_stepping_turns_by_one, on_key, seat_badge, slide_at, slide_step, step_slide,
    DeckKey, GameMode, Identity, KeyAction, NavBar, Slide, SlideStep,
};
use crate::protocol::{AppDown, AppUp, Role, SLIDE_COUNT};
use crate::text::{decimal, text_of};

verus! {

/// What the deck holds.
pub struct DeckPage {
    pub mode: GameMode,
    pub slide: usize,
    pub identity: Identity,
    /// The join code is up.
    pub joining: bool,
    pub bar: NavBar,
}

/// What the join code's overlay says.
pub struct JoinView {
    pub url: String,
    pub players_present: usize,
    pub players_capacity: usize,
}

/// What the deck shows.
pub struct DeckView {
    pub slide: Slide,
    pub counter: String,
    pub badge: String,
    /// The navigation bar is up.
    pub awake: bool,
    pub join: Option<JoinView>,
}

impl DeckPage {
    /// Everything but the slide is as before.
    pub open spec fn only_slide_differs(&self, before: &Self) -> bool {
        &&& self.mode == before.mode
        &&& self.identity == before.identity
        &&& self.joining == before.joining
        &&& self.bar == before.bar
    }

    /// What stepping the deck does: the server owns the slide if there is one.
    pub open spec fn stepped(&self, forward: bool, after: &Self, ask: Option<AppUp>) -> bool {
        &&& after.only_slide_differs(self)
        &&& match slide_step(self.mode, self.slide, forward) {
            SlideStep::Ask(command) => ask == Some(command) && after.slide == self.slide,
            SlideStep::Show(next) => ask is None && after.slide == next,
        }
    }

    /// What a key does: `q` toggles the join code, Escape takes it down, and
    /// the presenter's keys step the deck.
    pub open spec fn pressed(&self, key: DeckKey, after: &Self, ask: Option<AppUp>) -> bool {
        match key_action(key, self.identity.role is Presenter) {
            KeyAction::Step { forward } => self.stepped(forward, after, ask),
            action => {
                &&& ask is None
                &&& after.mode == self.mode
                &&& after.slide == self.slide
                &&& after.identity == self.identity
                &&& after.bar == self.bar
                &&& after.joining == match action {
                    KeyAction::ToggleJoin => !self.joining,
                    KeyAction::CloseJoin => false,
                    _ => self.joining,
                }
            },
        }
    }

    /// A deck as it is mounted.
    pub fn open(mode: GameMode, slide: usize) -> (page: Self)
        ensures
            page.mode == mode,
            page.slide == slide,
            page.identity.role == (if mode is Local {
                Role::Presenter
            } else {
                Role::Spectator
            }),
            page.identity.seat is None,
            page.identity.players_present == 0,
            page.identity.players_capacity == 0,
            page.identity.join_url is None,
            !page.joining,
            page.bar == (NavBar { awake: false, generation: 0 }),
    {
        DeckPage {
            mode,
            slide,
            identity: Identity::initial(mode),
            joining: false,
            bar: NavBar { awake: false, generation: 0 },
        }
    }

    /// The server said where the deck is and who the viewer is. Yields a
    /// ticket that is to be remembered: it comes once, to a viewer who came
    /// without one.
    pub fn hear(&mut self, down: AppDown) -> (ticket: Option<String>)
        ensures
            final(self).mode == old(self).mode,
            final(self).joining == old(self).joining,
            final(self).bar == old(self).bar,
            final(self).slide == down.slide,
            final(self).identity.role == down.role,
            final(self).identity.seat == down.seat,
            final(self).identity.players_present == down.players_present,
            final(self).identity.players_capacity == down.players_capacity,
            text_of(final(self).identity.join_url) == text_of(down.join_url),
            ticket == down.granted_ticket,
    {
        let AppDown {
            slide,
            role,
            seat,
            granted_ticket,
            players_present,
            players_capacity,
            join_url,
        } = down;
        self.slide = slide;
        self.identity = Identity::granted(
            AppDown {
                slide,
                role,
                seat,
                granted_ticket: None,
                players_present,
                players_capacity,
                join_url,
            },
        );
        granted_ticket
    }

    /// The deck is stepped by one slide. Yields what is to be asked of the
    /// server.
    pub fn step(&mut self, forward: bool) -> (ask: Option<AppUp>)
        requires
            can_step(old(self).mode, old(self).slide, forward),
        ensures
            old(self).stepped(forward, final(self), ask),
    {
        match step_slide(self.mode, self.slide, forward) {
            SlideStep::Ask(command) => Some(command),
            SlideStep::Show(next) => {
                self.slide = next;
                None
            },
        }
    }

    /// A key was pressed. Yields what is to be asked of the server.
    pub fn press(&mut self, key: &DeckKey) -> (ask: Option<AppUp>)
        requires
            key_action(*key, old(self).identity.role is Presenter) matches KeyAction::Step {
                forward,
            } ==> can_step(old(self).mode, old(self).slide, forward),
        ensures
            old(self).pressed(*key, final(self), ask),
    {
        match on_key(key, self.identity.role.may_present()) {
            KeyAction::ToggleJoin => {
                self.joining = !self.joining;
                None
            },
            KeyAction::CloseJoin => {
                self.joining = false;
                None
            },
            KeyAction::Step { forward } => self.step(forward),
            KeyAction::Nothing => None,
        }
    }

    /// The join code's overlay was dismissed.
    pub fn close_join(&mut self)
        ensures
            *final(self) == (DeckPage { joining: false, ..*old(self) }),
    {
        self.joining = false;
    }

    /// What the deck shows. The join code is the presenter's: without its
    /// address there is nothing to show.
    pub fn view(&self) -> (view: DeckView)
        requires
            self.slide < usize::MAX,
        ensures
            view.slide == slide_at(self.slide),
            view.counter@ == decimal((self.slide + 1) as nat) + " / "@ + decimal(
                SLIDE_COUNT as nat,
            ),
            view.badge@ == badge(self.mode, self.identity.role, self.identity.seat),
            view.awake == self.bar.awake,
            match view.join {
                Some(join) => {
                    &&& self.joining
                    &&& Some(join.url@) == text_of(self.identity.join_url)
                    &&& join.players_present == self.identity.players_present
                    &&& join.players_capacity == self.identity.players_capacity
                },
                None => !self.joining || self.identity.join_url is None,
            },
    {
        let join = match &self.identity.join_url {
            Some(url) if self.joining => Some(
                JoinView {
                    url: url.as_str().to_owned(),
                    players_present: self.identity.players_present,
                    players_capacity: self.identity.players_capacity,
                },
            ),
            _ => None,
        };
        DeckView {
            slide: Slide::at(self.slide),
            counter: counter(self.slide),
            badge: seat_badge(self.mode, self.identity.role, self.identity.seat),
            awake: self.bar.awake,
            join,
        }
    }
}

/// Whoever may not present cannot move the deck: no key of theirs changes the
/// slide or asks the server to.
pub proof fn law_only_the_presenter_moves_the_deck(
    page: &DeckPage,
    key: DeckKey,
    after: &DeckPage,
    ask: Option<AppUp>,
)
    requires
        !(page.identity.role is Presenter),
        page.pressed(key, after, ask),
    ensures
        ask is None,
        after.slide == page.slide,
{
}

/// A step moves the slide in single-player mode and asks the server for it in
/// multiplayer mode, never both; nothing else of the deck changes.
pub proof fn law_step_moves_or_asks(
    page: &DeckPage,
    forward: bool,
    after: &DeckPage,
    ask: Option<AppUp>,
)
    requires
        page.stepped(forward, after, ask),
    ensures
        page.mode is Remote ==> ask is Some && after.slide == page.slide,
        page.mode is Local ==> ask is None,
        page.mode is Remote && forward ==> ask == Some(AppUp::AdvanceSlide),
        page.mode is Remote && !forward ==> ask == Some(AppUp::PreviousSlide),
        after.mode == page.mode,
        after.identity == page.identity,
        after.joining == page.joining,
        after.bar == page.bar,
{
}

/// A key that does not step touches nothing but the join code: one turns it
/// over, one takes it down, and every other leaves the deck as it is.
pub proof fn law_keys_leave_the_rest_alone(
    page: &DeckPage,
    key: DeckKey,
    after: &DeckPage,
    ask: Option<AppUp>,
)
    requires
        page.pressed(key, after, ask),
    ensures
        after.mode == page.mode,
        after.identity == page.identity,
        after.bar == page.bar,
        key is Escape ==> !after.joining && after.slide == page.slide,
        !(key is Character) && !(key is Escape) ==> after.joining == page.joining,
        key is Character && key->Character_0@ == "q"@ ==> after.joining == !page.joining
            && after.slide == page.slide,
        key is Character && key->Character_0@ != "q"@ ==> after.joining == page.joining,
{
}

/// In single-player mode a step turns the deck by one slide, round the end.
pub proof fn law_local_step_turns_by_one(
    page: &DeckPage,
    forward: bool,
    after: &DeckPage,
    ask: Option<AppUp>,
)
    requires
        page.stepped(forward, after, ask),
        page.mode is Local,
        page.slide < SLIDE_COUNT,
    ensures
        after.slide < SLIDE_COUNT,
        forward && page.slide + 1 < SLIDE_COUNT ==> after.slide == page.slide + 1,
        forward && page.slide + 1 == SLIDE_COUNT ==> after.slide == 0,
        !forward && page.slide > 0 ==> after.slide == page.slide - 1,
        !forward && page.slide == 0 ==> after.slide + 1 == SLIDE_COUNT,
{
    law_stepping_turns_by_one(page.slide);
}

} // verus!

//! The page of the watch game.

use vstd::prelude::*;

use crate::deck::GameMode;
use crate::games::mpsc::{claims_presenter, restart};
use crate::games::watch::{
    all_launched, badge, badge_text, can_create, create_channel, dispatch_local, empty_snapshot,
    face_of, footer, footer_note, is_blank, is_operable, is_presenter, launched,
    law_own_receivers_are_counted, letter_in, local_game, local_sim, owned_count, receiver_label, send_value, shown_value, value_label,
    viewer, viewer_of, without_key, WatchState,
};
use crate::protocol::{AppUp, Game, RxInfo, WatchEvent, WatchSnapshot, WatchWire, WATCH_MAX_RX};
use crate::sim::watch::WatchSim;
use crate::sim::LOCAL_CONN;

verus! {

/// What the page holds.
pub struct WatchPage {
    pub mode: GameMode,
    /// The game itself, in single-player mode.
    pub sim: WatchSim,
    pub chan: WatchState,
    /// Who the viewer is, once the server has said so.
    pub my_conn: Option<u64>,
    /// A badge that is flashing, and its key.
    pub badge: Option<(&'static str, u64)>,
    /// The field of the initial value.
    pub init: String,
    /// The field of the next value.
    pub draft: String,
}

/// A receiver's card.
pub struct CardView {
    pub rx: RxInfo,
    pub label: String,
    /// The viewer may wait, look inside and drop it.
    pub operable: bool,
    /// There is a button to clone it, and it works.
    pub shows_clone: bool,
    pub may_clone: bool,
}

/// What the page shows.
pub struct WatchView {
    /// The channel exists, so its cell and the cards are drawn.
    pub created: bool,
    /// The fields to send from, and to create the channel with.
    pub shows_send: bool,
    pub shows_create: bool,
    pub may_send: bool,
    pub may_create: bool,
    /// A send waits for the guards.
    pub pending: bool,
    pub value: String,
    pub cards: Vec<CardView>,
    /// There is a button for another receiver, and it works.
    pub shows_subscribe: bool,
    pub may_subscribe: bool,
    pub note: String,
    /// Whether there is a restart button.
    pub presents: bool,
}

impl WatchPage {
    /// The invariant that everything keeps.
    pub open spec fn wf(&self) -> bool {
        self.sim.wf()
    }

    /// The game is at its start, and nothing is in the air. In multiplayer mode
    /// the page waits for the server's first snapshot.
    pub open spec fn at_start(&self) -> bool {
        &&& self.sim@ == local_game()
        &&& self.chan.flights@.len() == 0
        &&& match self.mode {
            GameMode::Local => self.sim@.shown_by(self.chan.snap),
            GameMode::Remote => is_blank(self.chan.snap),
        }
    }

    /// Whether the single-player game can take a command: its counters have
    /// room, and the page has keys for the flights.
    pub open spec fn takes(&self, command: WatchWire) -> bool {
        self.mode is Local ==> {
            &&& self.sim@.has_room()
            &&& self.chan.key + self.sim@.step(command, LOCAL_CONN).1.len() * (
            self.chan.snap.receivers@.len() + 1) <= u64::MAX
        }
    }

    /// What a command makes of the page: in single-player mode the game takes
    /// it at once, in multiplayer mode it is to be sent and the page waits.
    pub open spec fn acted(&self, command: WatchWire, after: &Self) -> bool {
        &&& after.mode == self.mode
        &&& after.my_conn == self.my_conn
        &&& after.badge == self.badge
        &&& match self.mode {
            GameMode::Local => {
                let (game, events) = self.sim@.step(command, LOCAL_CONN);
                &&& after.sim@ == game
                &&& game.shown_by(after.chan.snap)
                &&& (after.chan.flights@, after.chan.key) == all_launched(
                    self.chan.snap,
                    self.chan.flights@,
                    self.chan.key,
                    events,
                )
            },
            GameMode::Remote => after.sim == self.sim && after.chan == self.chan,
        }
    }

    /// Whether the viewer has the presenter's controls.
    pub open spec fn presenting(&self) -> bool {
        self.mode is Local || self.chan.snap.presenter == Some(viewer_of(self.my_conn))
    }

    /// Whether the viewer may have another receiver.
    pub open spec fn may_add(&self) -> bool {
        owned_count(self.chan.snap.receivers@, viewer_of(self.my_conn)) < WATCH_MAX_RX
    }

    /// What the card of `rx` says.
    pub open spec fn card(
        &self,
        rx: RxInfo,
        connected: bool,
        may_play: bool,
        view: CardView,
    ) -> bool {
        &&& view.rx == rx
        &&& view.label@ == face_of(rx, self.chan.snap.value)
        &&& view.operable == (may_play && (rx.owner == viewer_of(self.my_conn)
            || self.presenting()))
        &&& view.shows_clone == may_play
        &&& view.may_clone == (connected && may_play && self.may_add())
    }

    /// A page as it is mounted.
    pub fn open(mode: GameMode) -> (page: Self)
        ensures
            page.wf(),
            page.mode == mode,
            page.at_start(),
            page.chan.key == 0,
            page.my_conn is None,
            page.badge is None,
            page.init@.len() == 0,
            page.draft@.len() == 0,
    {
        let sim = local_sim();
        let snap = match mode {
            GameMode::Local => sim.snapshot(),
            GameMode::Remote => empty_snapshot(),
        };
        WatchPage {
            mode,
            sim,
            chan: WatchState::new(snap),
            my_conn: None,
            badge: None,
            init: String::new(),
            draft: String::new(),
        }
    }

    /// The server said something. Yields the key of a badge that this flashed,
    /// to be taken down in time.
    pub fn hear(&mut self, event: WatchEvent) -> (key: Option<u64>)
        requires
            old(self).wf(),
            old(self).chan.key + old(self).chan.snap.receivers@.len() < u64::MAX,
        ensures
            final(self).wf(),
            final(self).mode == old(self).mode,
            final(self).sim == old(self).sim,
            final(self).init == old(self).init,
            final(self).draft == old(self).draft,
            final(self).my_conn == match event {
                WatchEvent::Hello { conn } => Some(conn),
                _ => old(self).my_conn,
            },
            final(self).chan.snap == match event {
                WatchEvent::Snapshot { state } => state,
                _ => old(self).chan.snap,
            },
            match badge_text(event) {
                Some(text) => {
                    &&& key == Some((old(self).chan.key + 1) as u64)
                    &&& final(self).badge matches Some(badge)
                    &&& badge.0@ == text
                    &&& Some(badge.1) == key
                    &&& final(self).chan.key == badge.1
                    &&& final(self).chan.flights@ == old(self).chan.flights@
                },
                None => {
                    let started = launched(old(self).chan.snap, old(self).chan.key, event);
                    &&& key is None
                    &&& final(self).badge == old(self).badge
                    &&& final(self).chan.flights@ == old(self).chan.flights@ + started
                    &&& final(self).chan.key == old(self).chan.key + started.len()
                },
            },
    {
        if let WatchEvent::Hello { conn } = event {
            self.my_conn = Some(conn);
            return None;
        }
        match badge(&event) {
            Some(text) => {
                let key = self.chan.next_key();
                self.badge = Some((text, key));
                Some(key)
            },
            None => {
                self.chan.apply(event);
                None
            },
        }
    }

    /// A badge has been up long enough. A later one stays.
    pub fn take_down(&mut self, key: u64)
        requires
            old(self).wf(),
        ensures
            final(self).wf(),
            final(self).mode == old(self).mode,
            final(self).sim == old(self).sim,
            final(self).chan == old(self).chan,
            final(self).my_conn == old(self).my_conn,
            final(self).init == old(self).init,
            final(self).draft == old(self).draft,
            final(self).badge == match old(self).badge {
                Some(badge) if badge.1 != key => Some(badge),
                _ => None,
            },
    {
        if let Some(badge) = self.badge {
            if badge.1 == key {
                self.badge = None;
            }
        }
    }

    /// The presenter's slot is claimed as soon as the viewer may have it.
    pub fn claim(&self, ready: bool, may_present: bool) -> (send: Option<WatchWire>)
        ensures
            send == (if self.mode is Remote && ready && self.my_conn is Some && may_present {
                Some(WatchWire::ClaimPresenter)
            } else {
                None
            }),
    {
        if claims_presenter(self.mode, ready, self.my_conn, may_present) {
            Some(WatchWire::ClaimPresenter)
        } else {
            None
        }
    }

    /// The viewer gives a command. Yields what is to be sent.
    pub fn act(&mut self, command: WatchWire) -> (send: Option<WatchWire>)
        requires
            old(self).wf(),
            old(self).takes(command),
        ensures
            final(self).wf(),
            old(self).acted(command, final(self)),
            final(self).init == old(self).init,
            final(self).draft == old(self).draft,
            send == (if old(self).mode is Remote {
                Some(command)
            } else {
                None
            }),
    {
        match self.mode {
            GameMode::Local => {
                dispatch_local(&mut self.sim, &mut self.chan, &command);
                None
            },
            GameMode::Remote => Some(command),
        }
    }

    /// The create button: the letter in its field, if there is one, is the
    /// initial value, and the field empties. Yields what is to be sent.
    pub fn create(&mut self) -> (send: Option<WatchWire>)
        requires
            old(self).wf(),
            old(self).takes(WatchWire::Create { init: letter_in(old(self).init@) }),
        ensures
            final(self).wf(),
            final(self).init@.len() == 0,
            final(self).draft == old(self).draft,
            ({
                let command = WatchWire::Create { init: letter_in(old(self).init@) };
                &&& old(self).acted(command, final(self))
                &&& send == (if old(self).mode is Remote {
                    Some(command)
                } else {
                    None
                })
            }),
    {
        let command = create_channel(&mut self.init);
        self.act(command)
    }

    /// The send button: sends the letter in its field, if there is one, and
    /// empties the field. Yields what is to be sent.
    pub fn send(&mut self) -> (send: Option<WatchWire>)
        requires
            old(self).wf(),
            match letter_in(old(self).draft@) {
                Some(ch) => old(self).takes(WatchWire::Send { ch }),
                None => true,
            },
        ensures
            final(self).wf(),
            final(self).init == old(self).init,
            final(self).draft@.len() == 0,
            match letter_in(old(self).draft@) {
                Some(ch) => {
                    let command = WatchWire::Send { ch };
                    &&& old(self).acted(command, final(self))
                    &&& send == (if old(self).mode is Remote {
                        Some(command)
                    } else {
                        None
                    })
                },
                None => {
                    &&& send is None
                    &&& final(self).mode == old(self).mode
                    &&& final(self).sim == old(self).sim
                    &&& final(self).chan == old(self).chan
                    &&& final(self).my_conn == old(self).my_conn
                    &&& final(self).badge == old(self).badge
                },
            },
    {
        match send_value(&mut self.draft) {
            Some(command) => self.act(command),
            None => None,
        }
    }

    /// A flight's animation is over.
    pub fn landed(&mut self, key: u64)
        requires
            old(self).wf(),
        ensures
            final(self).wf(),
            final(self).mode == old(self).mode,
            final(self).sim == old(self).sim,
            final(self).my_conn == old(self).my_conn,
            final(self).badge == old(self).badge,
            final(self).init == old(self).init,
            final(self).draft == old(self).draft,
            final(self).chan.snap == old(self).chan.snap,
            final(self).chan.key == old(self).chan.key,
            final(self).chan.flights@ == without_key(old(self).chan.flights@, key),
    {
        self.chan.remove_flight(key);
    }

    /// The restart button: the single-player game starts over, a multiplayer
    /// game is restarted by the server. Yields what is to be asked of it.
    pub fn restart(&mut self) -> (ask: Option<AppUp>)
        requires
            old(self).wf(),
        ensures
            final(self).wf(),
            final(self).mode == old(self).mode,
            final(self).my_conn == old(self).my_conn,
            final(self).badge == old(self).badge,
            final(self).init == old(self).init,
            final(self).draft == old(self).draft,
            match old(self).mode {
                GameMode::Local => {
                    &&& ask is None
                    &&& final(self).at_start()
                    &&& final(self).chan.key == old(self).chan.key
                },
                GameMode::Remote => {
                    &&& ask == Some(AppUp::Restart { game: Game::Watch })
                    &&& *final(self) == *old(self)
                },
            },
    {
        let ask = restart(self.mode, Game::Watch);
        if ask.is_none() {
            self.sim = local_sim();
            self.chan.set_snapshot(self.sim.snapshot());
            self.chan.flights = Vec::new();
        }
        ask
    }

    /// What the page shows. A spectator gets no buttons.
    pub fn view(&self, connected: bool, may_play: bool, may_present: bool) -> (view: WatchView)
        ensures
            view.created == self.chan.snap.created,
            view.shows_send == (may_play && view.created && self.presenting()),
            view.shows_create == (may_play && !view.created && self.presenting()),
            view.pending == self.chan.snap.pending_send is Some,
            view.may_send == (connected && may_play && !view.pending),
            view.may_create == (connected && may_play),
            view.value@ == shown_value(self.chan.snap.value),
            view.cards@.len() == self.chan.snap.receivers@.len(),
            forall|i: int|
                0 <= i < view.cards@.len() ==> self.card(
                    self.chan.snap.receivers@[i],
                    connected,
                    may_play,
                    #[trigger] view.cards@[i],
                ),
            view.shows_subscribe == (may_play && view.created),
            view.may_subscribe == (connected && may_play && self.may_add()),
            view.note@ == footer(self.chan.snap),
            view.presents == may_present,
    {
        let snap = &self.chan.snap;
        let my = viewer(self.my_conn);
        let presenting = is_presenter(self.mode, snap.presenter, my);
        let may_add = can_create(&snap.receivers, my);
        let pending = snap.pending_send.is_some();
        WatchView {
            created: snap.created,
            shows_send: may_play && snap.created && presenting,
            shows_create: may_play && !snap.created && presenting,
            may_send: connected && may_play && !pending,
            may_create: connected && may_play,
            pending,
            value: value_label(snap.value),
            cards: self.cards(connected, may_play),
            shows_subscribe: may_play && snap.created,
            may_subscribe: connected && may_play && may_add,
            note: footer_note(snap),
            presents: may_present,
        }
    }

    fn cards(&self, connected: bool, may_play: bool) -> (cards: Vec<CardView>)
        ensures
            cards@.len() == self.chan.snap.receivers@.len(),
            forall|i: int|
                0 <= i < cards@.len() ==> self.card(
                    self.chan.snap.receivers@[i],
                    connected,
                    may_play,
                    #[trigger] cards@[i],
                ),
    {
        let snap = &self.chan.snap;
        let my = viewer(self.my_conn);
        let presenting = is_presenter(self.mode, snap.presenter, my);
        let may_clone = connected && may_play && can_create(&snap.receivers, my);
        let mut cards: Vec<CardView> = Vec::new();
        let mut i: usize = 0;
        while i < snap.receivers.len()
            invariant
                i <= snap.receivers@.len(),
                *snap == self.chan.snap,
                my == viewer_of(self.my_conn),
                presenting == self.presenting(),
                may_clone == (connected && may_play && self.may_add()),
                cards@.len() == i,
                forall|j: int|
                    0 <= j < i ==> self.card(
                        self.chan.snap.receivers@[j],
                        connected,
                        may_play,
                        #[trigger] cards@[j],
                    ),
            decreases snap.receivers@.len() - i,
        {
            let rx = snap.receivers[i];
            cards.push(
                CardView {
                    rx,
                    label: receiver_label(&rx, snap.value),
                    operable: may_play && is_operable(&rx, my, presenting),
                    shows_clone: may_play,
                    may_clone,
                },
            );
            i = i + 1;
        }
        cards
    }
}

/// The two modes show the same: what a single-player page shows after a
/// command is what a multiplayer page shows once it hears the snapshot of a
/// game that took the command.
pub proof fn law_both_modes_show_the_same(
    page: &WatchPage,
    command: WatchWire,
    after: &WatchPage,
    heard: WatchSnapshot,
)
    requires
        page.mode is Local,
        page.acted(command, after),
        page.sim@.step(command, LOCAL_CONN).0.shown_by(heard),
    ensures
        after.chan.snap.created == heard.created,
        after.chan.snap.value == heard.value,
        after.chan.snap.version == heard.version,
        after.chan.snap.pending_send == heard.pending_send,
        after.chan.snap.presenter == heard.presenter,
        after.chan.snap.receivers@ == heard.receivers@,
{
}

/// The page waits for the server in multiplayer mode: a command changes nothing
/// there. In single-player mode the game takes it at once.
pub proof fn law_server_decides_in_multiplayer(
    page: &WatchPage,
    command: WatchWire,
    after: &WatchPage,
)
    requires
        page.acted(command, after),
    ensures
        after.mode == page.mode,
        after.my_conn == page.my_conn,
        after.badge == page.badge,
        page.mode is Remote ==> after.sim == page.sim && after.chan == page.chan,
        page.mode is Local ==> after.sim@ == page.sim@.step(command, LOCAL_CONN).0,
        page.mode is Local ==> after.chan.flights@ == all_launched(
            page.chan.snap,
            page.chan.flights@,
            page.chan.key,
            page.sim@.step(command, LOCAL_CONN).1,
        ).0,
{
}

/// A card can be operated by its owner and by the presenter, who is anybody in
/// single-player mode; spectators operate nothing.
pub proof fn law_cards_are_operated_by_their_owner(
    page: &WatchPage,
    rx: RxInfo,
    connected: bool,
    may_play: bool,
    view: CardView,
)
    requires
        page.card(rx, connected, may_play, view),
    ensures
        view.rx == rx,
        view.operable ==> may_play,
        !view.operable && may_play ==> page.mode is Remote && rx.owner != viewer_of(
            page.my_conn,
        ) && page.chan.snap.presenter != Some(viewer_of(page.my_conn)),
        page.mode is Local && may_play ==> view.operable,
        may_play && rx.owner == viewer_of(page.my_conn) ==> view.operable,
        may_play && page.chan.snap.presenter == Some(viewer_of(page.my_conn)) ==> view.operable,
        view.shows_clone <==> may_play,
        view.may_clone <==> connected && may_play && page.chan.snap.receivers@.filter(
            |held: RxInfo| held.owner == viewer_of(page.my_conn),
        ).len() < WATCH_MAX_RX,
{
    law_own_receivers_are_counted(page.chan.snap.receivers@, viewer_of(page.my_conn));
}

/// A page starts with nothing in the air; in single-player mode it shows its own
/// fresh game, which the player presents, and else nothing yet.
pub proof fn law_page_starts_with_a_fresh_game(page: &WatchPage)
    requires
        page.at_start(),
    ensures
        page.chan.flights@.len() == 0,
        !page.chan.snap.created,
        page.chan.snap.value is None,
        page.chan.snap.version == 0,
        page.chan.snap.pending_send is None,
        page.chan.snap.receivers@.len() == 0,
        page.mode is Local ==> page.chan.snap.presenter == Some(LOCAL_CONN),
        page.mode is Remote ==> page.chan.snap.presenter is None,
        page.sim@.presenter == Some(LOCAL_CONN),
        !page.sim@.created,
        page.sim@.receivers.len() == 0,
{
}

/// In single-player mode the player has the presenter's controls; in
/// multiplayer mode whoever the snapshot names has them.
pub proof fn law_presenter_is_whom_the_snapshot_names(page: &WatchPage)
    ensures
        page.mode is Local ==> page.presenting(),
        page.mode is Remote ==> (page.presenting() <==> page.chan.snap.presenter is Some
            && page.chan.snap.presenter->Some_0 == viewer_of(page.my_conn)),
{
}

} // verus!

//! The page of the mpsc game.

use vstd::prelude::*;

use crate::deck::GameMode;
use crate::games::mpsc::{
    all_flown, claims_presenter, clone_wire, controls, controls_of, dispatch_local, draft_of,
    empty_snapshot, flown, footer, footer_note, is_blank, label, law_events_are_followed_in_order,
    law_local_game_has_one_player, local_game, local_sim, node_label, restart, send_from, set_draft, tick_local, without_draft, ChannelState, ControlsView,
};
use crate::protocol::{AppUp, Game, MpscEvent, MpscSnapshot, MpscWire, SenderInfo};
use crate::sim::mpsc::{MpscGame, MpscSim};
use crate::sim::LOCAL_CONN;

verus! {

/// What the page holds.
pub struct MpscPage {
    pub mode: GameMode,
    /// How long a value flies in single-player mode.
    pub flight_ms: u64,
    /// The game itself, in single-player mode.
    pub sim: MpscSim,
    pub chan: ChannelState,
    /// Who the viewer is, once that is known.
    pub my_conn: Option<u64>,
    /// The letters typed beside the handles.
    pub drafts: Vec<(u64, char)>,
    /// The handle that the next clone gets in single-player mode.
    pub next_conn: u64,
}

/// A handle as it is drawn.
pub struct NodeView {
    pub sender: SenderInfo,
    pub label: String,
}

/// What the page shows.
pub struct MpscView {
    pub nodes: Vec<NodeView>,
    pub controls: Vec<ControlsView>,
    pub note: String,
    /// There is a button to receive, and it works.
    pub shows_receive: bool,
    pub may_receive: bool,
    /// Whether there are buttons to clone a handle and to restart.
    pub presents: bool,
}

impl MpscPage {
    /// The invariant that everything keeps.
    pub open spec fn wf(&self) -> bool {
        &&& self.sim.wf()
        &&& self.sim@.flight_ms == self.flight_ms
    }

    /// The game is at its start, and nothing is in the air. In multiplayer mode
    /// the page waits for the server's first snapshot.
    pub open spec fn at_start(&self) -> bool {
        &&& self.sim@ == local_game(self.flight_ms)
        &&& self.chan.flights@.len() == 0
        &&& match self.mode {
            GameMode::Local => self.sim@.shown_by(self.chan.snap),
            GameMode::Remote => is_blank(self.chan.snap),
        }
    }

    /// The single-player game at time `now_ms`.
    pub open spec fn game_at(&self, now_ms: u64) -> MpscGame {
        MpscGame { now: now_ms as nat, ..self.sim@ }
    }

    /// Whether the single-player game can take a command: its counters have
    /// room, its flights land before time ends, and the page has keys for
    /// them.
    pub open spec fn takes(&self, command: MpscWire, now_ms: u64) -> bool {
        self.mode is Local ==> {
            let (sent, events) = self.game_at(now_ms).step(command, LOCAL_CONN);
            &&& self.sim@.has_room()
            &&& now_ms + self.flight_ms <= u64::MAX
            &&& self.chan.key + events.len() + sent.land().1.len() <= u64::MAX
        }
    }

    /// What a command makes of the page: in single-player mode the game takes
    /// it at once, in multiplayer mode it is to be sent and the page waits.
    pub open spec fn acted(&self, command: MpscWire, now_ms: u64, after: &Self) -> bool {
        &&& after.mode == self.mode
        &&& after.flight_ms == self.flight_ms
        &&& after.my_conn == self.my_conn
        &&& match self.mode {
            GameMode::Local => {
                let (sent, events) = self.game_at(now_ms).step(command, LOCAL_CONN);
                let (game, later) = sent.land();
                let (flights, key) = all_flown(self.chan.flights@, self.chan.key, events);
                &&& after.sim@ == game
                &&& game.shown_by(after.chan.snap)
                &&& (after.chan.flights@, after.chan.key) == all_flown(flights, key, later)
            },
            GameMode::Remote => after.sim == self.sim && after.chan == self.chan,
        }
    }

    /// A page as it is mounted.
    pub fn open(mode: GameMode, flight_ms: u64) -> (page: Self)
        ensures
            page.wf(),
            page.mode == mode,
            page.flight_ms == flight_ms,
            page.at_start(),
            page.chan.key == 0,
            page.drafts@.len() == 0,
            page.next_conn == LOCAL_CONN + 1,
            page.my_conn == match mode {
                GameMode::Local => Some(LOCAL_CONN),
                GameMode::Remote => None,
            },
    {
        let sim = local_sim(flight_ms);
        let snap = match mode {
            GameMode::Local => sim.snapshot(),
            GameMode::Remote => empty_snapshot(),
        };
        let my_conn = match mode {
            GameMode::Local => Some(LOCAL_CONN),
            GameMode::Remote => None,
        };
        MpscPage {
            mode,
            flight_ms,
            sim,
            chan: ChannelState::new(snap),
            my_conn,
            drafts: Vec::new(),
            next_conn: LOCAL_CONN + 1,
        }
    }

    /// The server said something.
    pub fn hear(&mut self, event: MpscEvent)
        requires
            old(self).wf(),
            old(self).chan.key < u64::MAX,
        ensures
            final(self).wf(),
            final(self).mode == old(self).mode,
            final(self).flight_ms == old(self).flight_ms,
            final(self).sim == old(self).sim,
            final(self).drafts == old(self).drafts,
            final(self).next_conn == old(self).next_conn,
            final(self).my_conn == match event {
                MpscEvent::Hello { conn } => Some(conn),
                _ => old(self).my_conn,
            },
            final(self).chan.snap == match event {
                MpscEvent::Snapshot { state } => state,
                _ => old(self).chan.snap,
            },
            (final(self).chan.flights@, final(self).chan.key) == flown(
                old(self).chan.flights@,
                old(self).chan.key,
                event,
            ),
    {
        match event {
            MpscEvent::Hello { conn } => {
                self.my_conn = Some(conn);
            },
            event => {
                self.chan.apply(event);
            },
        }
    }

    /// The presenter's slot is claimed as soon as the viewer may have it.
    pub fn claim(&self, ready: bool, may_present: bool) -> (send: Option<MpscWire>)
        ensures
            send == (if self.mode is Remote && ready && self.my_conn is Some && may_present {
                Some(MpscWire::ClaimPresenter)
            } else {
                None
            }),
    {
        if claims_presenter(self.mode, ready, self.my_conn, may_present) {
            Some(MpscWire::ClaimPresenter)
        } else {
            None
        }
    }

    /// The viewer gives a command. Yields what is to be sent.
    pub fn act(&mut self, command: MpscWire, now_ms: u64) -> (send: Option<MpscWire>)
        requires
            old(self).wf(),
            old(self).takes(command, now_ms),
        ensures
            final(self).wf(),
            old(self).acted(command, now_ms, final(self)),
            final(self).drafts == old(self).drafts,
            final(self).next_conn == old(self).next_conn,
            send == (if old(self).mode is Remote {
                Some(command)
            } else {
                None
            }),
    {
        match self.mode {
            GameMode::Local => {
                dispatch_local(&mut self.sim, &mut self.chan, &command, now_ms);
                None
            },
            GameMode::Remote => Some(command),
        }
    }

    /// The clock moved on. In single-player mode the flights that are over
    /// land.
    pub fn tick(&mut self, now_ms: u64)
        requires
            old(self).wf(),
            old(self).mode is Local ==> now_ms + old(self).flight_ms <= u64::MAX && old(
                self,
            ).chan.key + old(self).game_at(now_ms).land().1.len() <= u64::MAX,
        ensures
            final(self).wf(),
            final(self).mode == old(self).mode,
            final(self).flight_ms == old(self).flight_ms,
            final(self).my_conn == old(self).my_conn,
            final(self).drafts == old(self).drafts,
            final(self).next_conn == old(self).next_conn,
            if old(self).mode is Local {
                let (game, events) = old(self).game_at(now_ms).land();
                &&& final(self).sim@ == game
                &&& (final(self).chan.flights@, final(self).chan.key) == all_flown(
                    old(self).chan.flights@,
                    old(self).chan.key,
                    events,
                )
                &&& if events.len() > 0 {
                    game.shown_by(final(self).chan.snap)
                } else {
                    final(self).chan.snap == old(self).chan.snap
                }
            } else {
                *final(self) == *old(self)
            },
    {
        match self.mode {
            GameMode::Local => {
                tick_local(&mut self.sim, &mut self.chan, now_ms);
            },
            GameMode::Remote => {},
        }
    }

    /// The viewer types a letter beside a handle, or takes it back.
    pub fn type_letter(&mut self, sender: u64, ch: Option<char>)
        requires
            old(self).wf(),
        ensures
            final(self).wf(),
            final(self).mode == old(self).mode,
            final(self).flight_ms == old(self).flight_ms,
            final(self).sim == old(self).sim,
            final(self).chan == old(self).chan,
            final(self).my_conn == old(self).my_conn,
            final(self).next_conn == old(self).next_conn,
            final(self).drafts@ == match ch {
                Some(ch) => without_draft(old(self).drafts@, sender).push((sender, ch)),
                None => without_draft(old(self).drafts@, sender),
            },
    {
        set_draft(&mut self.drafts, sender, ch);
    }

    /// The send button beside a handle: sends the letter typed there, if any,
    /// and empties the field. Yields what is to be sent.
    pub fn send(&mut self, sender: u64, now_ms: u64) -> (send: Option<MpscWire>)
        requires
            old(self).wf(),
            match draft_of(old(self).drafts@, sender) {
                Some(ch) => old(self).takes(MpscWire::Send { conn: sender, ch }, now_ms),
                None => true,
            },
        ensures
            final(self).wf(),
            final(self).next_conn == old(self).next_conn,
            match draft_of(old(self).drafts@, sender) {
                Some(ch) => {
                    let command = MpscWire::Send { conn: sender, ch };
                    &&& old(self).acted(command, now_ms, final(self))
                    &&& final(self).drafts@ == without_draft(old(self).drafts@, sender)
                    &&& send == (if old(self).mode is Remote {
                        Some(command)
                    } else {
                        None
                    })
                },
                None => {
                    &&& send is None
                    &&& final(self).mode == old(self).mode
                    &&& final(self).flight_ms == old(self).flight_ms
                    &&& final(self).sim == old(self).sim
                    &&& final(self).chan == old(self).chan
                    &&& final(self).my_conn == old(self).my_conn
                    &&& final(self).drafts@ == old(self).drafts@
                },
            },
    {
        match send_from(&mut self.drafts, sender) {
            Some(command) => self.act(command, now_ms),
            None => None,
        }
    }

    /// The clone button: in single-player mode the page numbers the handles,
    /// in multiplayer mode the server does. Yields what is to be sent.
    pub fn clone_sender(&mut self, now_ms: u64) -> (send: Option<MpscWire>)
        requires
            old(self).wf(),
            old(self).takes(MpscWire::CloneSender { conn: old(self).next_conn }, now_ms),
            old(self).mode is Local ==> old(self).next_conn < u64::MAX,
        ensures
            final(self).wf(),
            final(self).drafts == old(self).drafts,
            match old(self).mode {
                GameMode::Local => {
                    &&& send is None
                    &&& final(self).next_conn == old(self).next_conn + 1
                    &&& old(self).acted(
                        MpscWire::CloneSender { conn: old(self).next_conn },
                        now_ms,
                        final(self),
                    )
                },
                GameMode::Remote => {
                    &&& send == Some(MpscWire::CloneSender { conn: 0 })
                    &&& *final(self) == *old(self)
                },
            },
    {
        let command = clone_wire(self.mode, self.next_conn);
        match self.mode {
            GameMode::Local => {
                self.next_conn = self.next_conn + 1;
            },
            GameMode::Remote => {},
        }
        self.act(command, now_ms)
    }

    /// The restart button: the single-player game starts over, a multiplayer
    /// game is restarted by the server. Yields what is to be asked of it.
    pub fn restart(&mut self) -> (ask: Option<AppUp>)
        requires
            old(self).wf(),
        ensures
            final(self).wf(),
            final(self).mode == old(self).mode,
            final(self).flight_ms == old(self).flight_ms,
            final(self).my_conn == old(self).my_conn,
            final(self).drafts == old(self).drafts,
            final(self).next_conn == old(self).next_conn,
            match old(self).mode {
                GameMode::Local => {
                    &&& ask is None
                    &&& final(self).at_start()
                    &&& final(self).chan.key == old(self).chan.key
                },
                GameMode::Remote => {
                    &&& ask == Some(AppUp::Restart { game: Game::Mpsc })
                    &&& *final(self) == *old(self)
                },
            },
    {
        let ask = restart(self.mode, Game::Mpsc);
        if ask.is_none() {
            self.sim = local_sim(self.flight_ms);
            self.chan.set_snapshot(self.sim.snapshot());
            self.chan.flights = Vec::new();
        }
        ask
    }

    /// What the page shows. A spectator gets no buttons.
    pub fn view(&self, connected: bool, may_play: bool, may_present: bool) -> (view: MpscView)
        ensures
            view.nodes@.len() == self.chan.snap.senders@.len(),
            forall|i: int|
                0 <= i < view.nodes@.len() ==> (#[trigger] view.nodes@[i]).sender
                    == self.chan.snap.senders@[i] && view.nodes@[i].label@ == node_label(
                    self.chan.snap.blocked_sends@,
                    self.chan.flights@,
                    self.chan.snap.senders@[i].conn,
                ),
            view.controls@ == (if may_play {
                controls_of(self.chan.snap.senders@, self.drafts@, self.my_conn)
            } else {
                Seq::empty()
            }),
            view.note@ == footer(self.chan.snap.waiting_receive, self.chan.snap.senders@),
            view.shows_receive == may_play,
            view.may_receive == (connected && may_play),
            view.presents == may_present,
    {
        let snap = &self.chan.snap;
        MpscView {
            nodes: self.nodes(),
            controls: if may_play {
                controls(&snap.senders, &self.drafts, self.my_conn)
            } else {
                Vec::new()
            },
            note: footer_note(snap),
            shows_receive: may_play,
            may_receive: connected && may_play,
            presents: may_present,
        }
    }

    fn nodes(&self) -> (nodes: Vec<NodeView>)
        ensures
            nodes@.len() == self.chan.snap.senders@.len(),
            forall|i: int|
                0 <= i < nodes@.len() ==> (#[trigger] nodes@[i]).sender
                    == self.chan.snap.senders@[i] && nodes@[i].label@ == node_label(
                    self.chan.snap.blocked_sends@,
                    self.chan.flights@,
                    self.chan.snap.senders@[i].conn,
                ),
    {
        let senders = &self.chan.snap.senders;
        let mut nodes: Vec<NodeView> = Vec::new();
        let mut i: usize = 0;
        while i < senders.len()
            invariant
                i <= senders.len(),
                senders@ == self.chan.snap.senders@,
                nodes@.len() == i,
                forall|j: int|
                    0 <= j < i ==> (#[trigger] nodes@[j]).sender == senders@[j] && nodes@[j].label@
                        == node_label(
                        self.chan.snap.blocked_sends@,
                        self.chan.flights@,
                        senders@[j].conn,
                    ),
            decreases senders.len() - i,
        {
            let sender = senders[i];
            nodes.push(NodeView { sender, label: label(&self.chan, sender.conn) });
            i = i + 1;
        }
        nodes
    }
}

/// The page waits for the server in multiplayer mode: a command changes nothing
/// there. In single-player mode the game takes it at once, at the time it is
/// given, and lands what is due.
pub proof fn law_server_decides_in_multiplayer(
    page: &MpscPage,
    command: MpscWire,
    now_ms: u64,
    after: &MpscPage,
)
    requires
        page.acted(command, now_ms, after),
    ensures
        after.mode == page.mode,
        after.my_conn == page.my_conn,
        after.flight_ms == page.flight_ms,
        page.mode is Remote ==> after.sim == page.sim && after.chan == page.chan,
        page.game_at(now_ms).now == now_ms,
        page.game_at(now_ms) == (MpscGame { now: page.game_at(now_ms).now, ..page.sim@ }),
        page.mode is Local ==> after.sim@ == page.game_at(now_ms).step(
            command,
            LOCAL_CONN,
        ).0.land().0,
{
}

/// The two modes show the same: what a single-player page shows after a
/// command is what a multiplayer page shows once it hears the snapshot of a
/// game that took the command and landed what was due.
pub proof fn law_both_modes_show_the_same(
    page: &MpscPage,
    command: MpscWire,
    now_ms: u64,
    after: &MpscPage,
    heard: MpscSnapshot,
)
    requires
        page.mode is Local,
        page.acted(command, now_ms, after),
        page.game_at(now_ms).step(command, LOCAL_CONN).0.land().0.shown_by(heard),
    ensures
        after.chan.snap.senders@ == heard.senders@,
        after.chan.snap.buffer@ == heard.buffer@,
        after.chan.snap.blocked_sends@ == heard.blocked_sends@,
        after.chan.snap.in_flight == heard.in_flight,
        after.chan.snap.waiting_receive == heard.waiting_receive,
        after.chan.snap.last_received == heard.last_received,
{
}

/// A page starts with nothing in the air; in single-player mode it shows its own
/// game with the player's handle, and else nothing yet.
pub proof fn law_page_starts_with_a_fresh_game(page: &MpscPage)
    requires
        page.at_start(),
    ensures
        page.chan.flights@.len() == 0,
        page.sim@.flight_ms == page.flight_ms,
        page.sim@.handles.len() == 1,
        page.sim@.handles[0].conn == LOCAL_CONN,
        page.sim@.line.len() == 0,
        page.sim@.landings.len() == 0,
        page.sim@.pending_receives == 0,
        page.mode is Local ==> page.sim@.shown_by(page.chan.snap),
        page.mode is Remote ==> page.chan.snap.senders@.len() == 0 && page.chan.snap.buffer@.len()
            == 0 && page.chan.snap.blocked_sends@.len() == 0,
{
    law_local_game_has_one_player(page.flight_ms);
}

/// The flights that a command starts are drawn before those that it lands.
pub proof fn law_flights_start_before_they_land(
    page: &MpscPage,
    command: MpscWire,
    now_ms: u64,
    after: &MpscPage,
)
    requires
        page.mode is Local,
        page.acted(command, now_ms, after),
    ensures
        ({
            let (sent, started) = page.game_at(now_ms).step(command, LOCAL_CONN);
            (after.chan.flights@, after.chan.key) == all_flown(
                page.chan.flights@,
                page.chan.key,
                started + sent.land().1,
            )
        }),
{
    let (sent, started) = page.game_at(now_ms).step(command, LOCAL_CONN);
    law_events_are_followed_in_order(
        page.chan.flights@,
        page.chan.key,
        started,
        sent.land().1,
    );
}

} // verus!

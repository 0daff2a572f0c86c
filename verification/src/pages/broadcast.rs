//! The page of the broadcast game.

use vstd::prelude::*;

use crate::deck::GameMode;
use crate::games::broadcast::{
    all_flown, dispatch_local, empty_snapshot, flown, is_blank, is_closed, launched,
    law_local_game_is_the_players, local_game,
    local_sim, may_receive, my_receiver, nodes, occupancy, receiver_of, seen_by, send_from,
    without_key, ChannelState, SenderView,
};
use crate::games::mpsc::{claims_presenter, draft_of, restart, set_draft, without_draft};
use crate::protocol::{
    AppUp, BroadcastError, BroadcastEvent, BroadcastSnapshot, BroadcastWire, Game, RxState,
    SenderInfo, BROADCAST_CAPACITY,
};
use crate::sim::broadcast::BroadcastSim;
use crate::sim::LOCAL_CONN;
use crate::text::decimal;

verus! {

/// What the page holds.
pub struct BroadcastPage {
    pub mode: GameMode,
    /// The game itself, in single-player mode.
    pub sim: BroadcastSim,
    pub chan: ChannelState,
    /// Who the viewer is, once that is known.
    pub my_conn: Option<u64>,
    /// The letters typed beside the senders.
    pub drafts: Vec<(u64, char)>,
}

/// A receiver as the viewer sees it.
#[derive(Debug, Clone, Copy, PartialEq, Eq, Structural)]
pub struct ReceiverView {
    pub rx: RxState,
    /// The viewer operates it.
    pub mine: bool,
    pub may_receive: bool,
    pub may_drop: bool,
}

/// What the page shows.
pub struct BroadcastView {
    /// Every sender is gone.
    pub closed: bool,
    pub occupancy: String,
    pub senders: Vec<SenderView>,
    pub receivers: Vec<ReceiverView>,
    /// The viewer's own receiver.
    pub mine: Option<u64>,
    /// There are buttons beside the senders and the viewer's receiver.
    pub plays: bool,
    pub may_subscribe: bool,
    pub may_clone: bool,
    pub may_send: bool,
    /// Whether there is a restart button, and whether it works.
    pub restart: Option<bool>,
}

/// A receiver as `my` sees it, who can operate one if `enabled`.
pub open spec fn receiver_seen_by(rx: RxState, my: Option<u64>, enabled: bool) -> ReceiverView {
    ReceiverView {
        rx,
        mine: my == Some(rx.owner),
        may_receive: enabled && rx.error != Some(BroadcastError::Closed),
        may_drop: enabled,
    }
}

impl BroadcastPage {
    /// The invariant that everything keeps.
    pub open spec fn wf(&self) -> bool {
        self.sim.wf()
    }

    /// The game is at its start, and nothing is in the air. In multiplayer mode
    /// the page waits for the server's first snapshot.
    pub open spec fn at_start(&self) -> bool {
        &&& self.sim@ == local_game()
        &&& self.chan.flights@.len() == 0
        &&& match self.mode {
            GameMode::Local => self.sim@.shown_by(self.chan.snap),
            GameMode::Remote => is_blank(self.chan.snap),
        }
    }

    /// Whether the single-player game can take a command: it still has ids,
    /// and the page has keys for the flights.
    pub open spec fn takes(&self, command: BroadcastWire) -> bool {
        self.mode is Local ==> {
            &&& self.sim@.has_room()
            &&& self.chan.key + self.sim@.step(command, LOCAL_CONN).1.len() <= u64::MAX
        }
    }

    /// What a command makes of the page: in single-player mode the game takes
    /// it at once, in multiplayer mode it is to be sent and the page waits.
    pub open spec fn acted(&self, command: BroadcastWire, after: &Self) -> bool {
        &&& after.mode == self.mode
        &&& after.my_conn == self.my_conn
        &&& match self.mode {
            GameMode::Local => {
                let (game, events) = self.sim@.step(command, LOCAL_CONN);
                &&& after.sim@ == game
                &&& game.shown_by(after.chan.snap)
                &&& (after.chan.flights@, after.chan.key) == all_flown(
                    self.chan.flights@,
                    self.chan.key,
                    events,
                )
            },
            GameMode::Remote => after.sim == self.sim && after.chan == self.chan,
        }
    }

    /// A page as it is mounted.
    pub fn open(mode: GameMode) -> (page: Self)
        ensures
            page.wf(),
            page.mode == mode,
            page.at_start(),
            page.chan.key == 0,
            page.drafts@.len() == 0,
            page.my_conn == match mode {
                GameMode::Local => Some(LOCAL_CONN),
                GameMode::Remote => None,
            },
    {
        let sim = local_sim();
        let snap = match mode {
            GameMode::Local => sim.snapshot(),
            GameMode::Remote => empty_snapshot(),
        };
        let my_conn = match mode {
            GameMode::Local => Some(LOCAL_CONN),
            GameMode::Remote => None,
        };
        BroadcastPage { mode, sim, chan: ChannelState::new(snap), my_conn, drafts: Vec::new() }
    }

    /// The server said something. Yields the key of a flight that this
    /// started, to be removed in time even if its animation never ends.
    pub fn hear(&mut self, event: BroadcastEvent) -> (key: Option<u64>)
        requires
            old(self).wf(),
            old(self).chan.key < u64::MAX,
        ensures
            final(self).wf(),
            final(self).mode == old(self).mode,
            final(self).sim == old(self).sim,
            final(self).drafts == old(self).drafts,
            final(self).my_conn == match event {
                BroadcastEvent::Hello { conn } => Some(conn),
                _ => old(self).my_conn,
            },
            final(self).chan.snap == match event {
                BroadcastEvent::Snapshot { state } => state,
                _ => old(self).chan.snap,
            },
            (final(self).chan.flights@, final(self).chan.key) == flown(
                old(self).chan.flights@,
                old(self).chan.key,
                event,
            ),
            key == match launched(old(self).chan.key, event) {
                Some(flight) => Some(flight.key),
                None => None,
            },
    {
        match event {
            BroadcastEvent::Hello { conn } => {
                self.my_conn = Some(conn);
                None
            },
            event => self.chan.apply(event),
        }
    }

    /// The presenter's slot is claimed as soon as the viewer may have it.
    pub fn claim(&self, ready: bool, may_present: bool) -> (send: Option<BroadcastWire>)
        ensures
            send == (if self.mode is Remote && ready && self.my_conn is Some && may_present {
                Some(BroadcastWire::ClaimPresenter)
            } else {
                None
            }),
    {
        if claims_presenter(self.mode, ready, self.my_conn, may_present) {
            Some(BroadcastWire::ClaimPresenter)
        } else {
            None
        }
    }

    /// The viewer gives a command. Yields what is to be sent.
    pub fn act(&mut self, command: BroadcastWire) -> (send: Option<BroadcastWire>)
        requires
            old(self).wf(),
            old(self).takes(command),
        ensures
            final(self).wf(),
            old(self).acted(command, final(self)),
            final(self).drafts == old(self).drafts,
            send == (if old(self).mode is Remote {
                Some(command)
            } else {
                None
            }),
    {
        match self.mode {
            GameMode::Local => {
                dispatch_local(&mut self.sim, &mut self.chan, &command);
                None
            },
            GameMode::Remote => Some(command),
        }
    }

    /// The viewer types a letter beside a sender, or takes it back.
    pub fn type_letter(&mut self, handle: u64, ch: Option<char>)
        requires
            old(self).wf(),
        ensures
            final(self).wf(),
            final(self).mode == old(self).mode,
            final(self).sim == old(self).sim,
            final(self).chan == old(self).chan,
            final(self).my_conn == old(self).my_conn,
            final(self).drafts@ == match ch {
                Some(ch) => without_draft(old(self).drafts@, handle).push((handle, ch)),
                None => without_draft(old(self).drafts@, handle),
            },
    {
        set_draft(&mut self.drafts, handle, ch);
    }

    /// The send button beside a sender: sends the letter typed there, if any,
    /// and empties the field. Yields what is to be sent.
    pub fn send(&mut self, handle: u64) -> (send: Option<BroadcastWire>)
        requires
            old(self).wf(),
            match draft_of(old(self).drafts@, handle) {
                Some(ch) => old(self).takes(BroadcastWire::Send { conn: handle, ch }),
                None => true,
            },
        ensures
            final(self).wf(),
            match draft_of(old(self).drafts@, handle) {
                Some(ch) => {
                    let command = BroadcastWire::Send { conn: handle, ch };
                    &&& old(self).acted(command, final(self))
                    &&& final(self).drafts@ == without_draft(old(self).drafts@, handle)
                    &&& send == (if old(self).mode is Remote {
                        Some(command)
                    } else {
                        None
                    })
                },
                None => {
                    &&& send is None
                    &&& final(self).mode == old(self).mode
                    &&& final(self).sim == old(self).sim
                    &&& final(self).chan == old(self).chan
                    &&& final(self).my_conn == old(self).my_conn
                    &&& final(self).drafts@ == old(self).drafts@
                },
            },
    {
        match send_from(&mut self.drafts, handle) {
            Some(command) => self.act(command),
            None => None,
        }
    }

    /// A flight's animation is over.
    pub fn landed(&mut self, key: u64)
        requires
            old(self).wf(),
        ensures
            final(self).wf(),
            final(self).mode == old(self).mode,
            final(self).sim == old(self).sim,
            final(self).my_conn == old(self).my_conn,
            final(self).drafts == old(self).drafts,
            final(self).chan.snap == old(self).chan.snap,
            final(self).chan.key == old(self).chan.key,
            final(self).chan.flights@ == without_key(
                old(self).chan.flights@,
                key,
            ),
    {
        self.chan.remove_flight(key);
    }

    /// The restart button: the single-player game starts over, a multiplayer
    /// game is restarted by the server. Yields what is to be asked of it.
    pub fn restart(&mut self) -> (ask: Option<AppUp>)
        requires
            old(self).wf(),
        ensures
            final(self).wf(),
            final(self).mode == old(self).mode,
            final(self).my_conn == old(self).my_conn,
            final(self).drafts == old(self).drafts,
            match old(self).mode {
                GameMode::Local => {
                    &&& ask is None
                    &&& final(self).at_start()
                    &&& final(self).chan.key == old(self).chan.key
                },
                GameMode::Remote => {
                    &&& ask == Some(AppUp::Restart { game: Game::Broadcast })
                    &&& *final(self) == *old(self)
                },
            },
    {
        let ask = restart(self.mode, Game::Broadcast);
        if ask.is_none() {
            self.sim = local_sim();
            self.chan.set_snapshot(self.sim.snapshot());
            self.chan.flights = Vec::new();
        }
        ask
    }

    /// What the page shows. A spectator gets no buttons.
    pub fn view(&self, connected: bool, may_play: bool, may_present: bool) -> (view: BroadcastView)
        ensures
            view.closed == (self.chan.snap.senders@.len() == 0),
            view.occupancy@ == "buffer "@ + decimal(self.chan.snap.buffer@.len()) + " / "@
                + decimal(BROADCAST_CAPACITY as nat),
            view.senders@ == self.chan.snap.senders@.map_values(
                |sender: SenderInfo| seen_by(sender, self.my_conn),
            ),
            view.receivers@ == self.chan.snap.receivers@.map_values(
                |rx: RxState| receiver_seen_by(rx, self.my_conn, connected && may_play),
            ),
            view.mine == receiver_of(self.chan.snap.receivers@, self.my_conn),
            view.plays == may_play,
            view.may_subscribe == (connected && may_play && view.mine is None),
            view.may_clone == (connected && may_play),
            view.may_send == (may_play && !view.closed),
            view.restart == (if may_present {
                Some(connected)
            } else {
                None
            }),
    {
        let snap = &self.chan.snap;
        let closed = is_closed(snap);
        let mine = my_receiver(&snap.receivers, self.my_conn);
        let enabled = connected && may_play;
        BroadcastView {
            closed,
            occupancy: occupancy(snap),
            senders: nodes(&snap.senders, self.my_conn),
            receivers: receiver_views(&snap.receivers, self.my_conn, enabled),
            mine,
            plays: may_play,
            may_subscribe: enabled && mine.is_none(),
            may_clone: enabled,
            may_send: may_play && !closed,
            restart: if may_present {
                Some(connected)
            } else {
                None
            },
        }
    }
}

fn receiver_views(receivers: &Vec<RxState>, my: Option<u64>, enabled: bool) -> (views: Vec<
    ReceiverView,
>)
    ensures
        views@ == receivers@.map_values(|rx: RxState| receiver_seen_by(rx, my, enabled)),
{
    let mut views: Vec<ReceiverView> = Vec::new();
    let mut i: usize = 0;
    while i < receivers.len()
        invariant
            i <= receivers.len(),
            views@ =~= receivers@.take(i as int).map_values(
                |rx: RxState| receiver_seen_by(rx, my, enabled),
            ),
        decreases receivers.len() - i,
    {
        let rx = receivers[i];
        let mine = match my {
            Some(my) => my == rx.owner,
            None => false,
        };
        let may_receive = may_receive(&rx, enabled);
        views.push(ReceiverView { rx, mine, may_receive, may_drop: enabled });
        i = i + 1;
    }
    assert(receivers@.take(i as int) =~= receivers@);
    views
}

/// The two modes show the same: what a single-player page shows after a
/// command is what a multiplayer page shows once it hears the snapshot of a
/// game that took the command.
pub proof fn law_both_modes_show_the_same(
    page: &BroadcastPage,
    command: BroadcastWire,
    after: &BroadcastPage,
    heard: BroadcastSnapshot,
)
    requires
        page.mode is Local,
        page.acted(command, after),
        page.sim@.step(command, LOCAL_CONN).0.shown_by(heard),
    ensures
        after.chan.snap.senders@ == heard.senders@,
        after.chan.snap.buffer@ == heard.buffer@,
        after.chan.snap.tail == heard.tail,
        after.chan.snap.receivers@ == heard.receivers@,
        after.chan.snap.presenter == heard.presenter,
{
}

/// The page waits for the server in multiplayer mode: a command changes nothing
/// there. In single-player mode the game takes it at once.
pub proof fn law_server_decides_in_multiplayer(
    page: &BroadcastPage,
    command: BroadcastWire,
    after: &BroadcastPage,
)
    requires
        page.acted(command, after),
    ensures
        after.mode == page.mode,
        after.my_conn == page.my_conn,
        page.mode is Remote ==> after.sim == page.sim && after.chan == page.chan,
        page.mode is Local ==> after.sim@ == page.sim@.step(command, LOCAL_CONN).0,
        page.mode is Local ==> after.chan.flights@ == all_flown(
            page.chan.flights@,
            page.chan.key,
            page.sim@.step(command, LOCAL_CONN).1,
        ).0,
{
}

/// A receiver is its owner's; it can be received on until it is closed, and
/// dropped at any time, by whoever may operate it.
pub proof fn law_closed_receivers_can_only_be_dropped(
    rx: RxState,
    my: Option<u64>,
    enabled: bool,
)
    ensures
        ({
            let view = receiver_seen_by(rx, my, enabled);
            &&& view.rx == rx
            &&& view.mine <==> my is Some && my->Some_0 == rx.owner
            &&& view.may_receive ==> view.may_drop
            &&& view.may_drop <==> enabled
            &&& view.may_receive <==> enabled && !(rx.error is Some && rx.error->Some_0 is Closed)
        }),
{
}

/// A page starts with nothing in the air; in single-player mode it shows its own
/// game, which the player presents with the host's sender, and else nothing
/// yet.
pub proof fn law_page_starts_with_a_fresh_game(page: &BroadcastPage)
    requires
        page.at_start(),
    ensures
        page.chan.flights@.len() == 0,
        page.sim@.presenter == Some(LOCAL_CONN),
        page.sim@.senders.len() == 1,
        page.sim@.senders[0].owner == LOCAL_CONN,
        page.sim@.receivers.len() == 0,
        page.sim@.sent.len() == 0,
        page.mode is Local ==> page.sim@.shown_by(page.chan.snap),
        page.mode is Remote ==> page.chan.snap.senders@.len() == 0
            && page.chan.snap.receivers@.len() == 0 && page.chan.snap.presenter is None,
{
    law_local_game_is_the_players();
}

} // verus!

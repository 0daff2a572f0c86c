//! The watch actor: one sender (the presenter), a create phase for the initial
//! value, cloneable receivers and one event plane.
//!
//! After every change the actor publishes the full snapshot; the other events
//! only carry animation triggers. Sending is free, since there is no bounded
//! buffer, but a read guard holds a send back until the last guard drops.

use vstd::prelude::*;

use crate::protocol::{Role, RxInfo, WatchEvent, WatchSnapshot, WatchWire};
use crate::server::session::Client;
use crate::sim::watch::{
    ids_owned_by, index_of, lemma_index_of, lemma_owned_ids, WatchGame, WatchSim,
};

verus! {

/// What the sockets tell the actor.
#[derive(Debug, Clone, Copy, PartialEq, Eq, Structural)]
pub enum WatchMsg {
    /// Only the holder of the presenter slot is heard.
    Send { conn: u64, ch: char },
    Create { conn: u64, init: Option<char> },
    NewReceiver { conn: u64 },
    /// Clone `rx` for `requester`; only if the requester owns it or holds the
    /// presenter slot. Answered with the fresh receiver's id.
    CloneReceiver { requester: u64, rx: u64 },
    /// Receiver commands; foreign owners are ignored.
    AwaitChange { conn: u64, rx: u64 },
    LookInside { conn: u64, rx: u64 },
    DropReceiver { conn: u64, rx: u64 },
    Claim { conn: u64 },
    /// A connection left; if it held the presenter slot, the slot is free.
    ReleasePresenter { conn: u64 },
    /// Ask for the ids of the receivers that `conn` owns.
    Owned { conn: u64 },
    /// Ask for the current state.
    Get,
}

/// What the actor answers.
#[derive(Debug, Clone, PartialEq)]
pub enum WatchReply {
    Nothing,
    Cloned(Option<u64>),
    Owned(Vec<u64>),
    State(WatchSnapshot),
}

/// Whether `requester` may clone the receiver `rx`.
pub open spec fn may_clone(game: WatchGame, requester: u64, rx: u64) -> bool {
    game.operable(rx, requester) || game.presenter == Some(requester)
}

/// What a message does to the state, and the animation triggers it calls for;
/// `None` where nothing is published.
pub open spec fn actor_step(game: WatchGame, msg: WatchMsg) -> (WatchGame, Option<
    Seq<WatchEvent>,
>) {
    let played = |wire: WatchWire, conn: u64|
        {
            let (after, cues) = game.step(wire, conn);
            (after, Some(cues))
        };
    match msg {
        WatchMsg::Send { conn, ch } => played(WatchWire::Send { ch }, conn),
        WatchMsg::Create { conn, init } => played(WatchWire::Create { init }, conn),
        WatchMsg::NewReceiver { conn } => played(WatchWire::NewReceiver, conn),
        WatchMsg::CloneReceiver { requester, rx } => if may_clone(game, requester, rx) {
            played(WatchWire::CloneReceiver { rx }, requester)
        } else {
            (game, None)
        },
        WatchMsg::AwaitChange { conn, rx } => played(WatchWire::AwaitChange { rx }, conn),
        WatchMsg::LookInside { conn, rx } => played(WatchWire::LookInside { rx }, conn),
        WatchMsg::DropReceiver { conn, rx } => played(WatchWire::DropReceiver { rx }, conn),
        WatchMsg::Claim { conn } => (
            WatchGame { presenter: Some(conn), ..game },
            Some(Seq::empty()),
        ),
        WatchMsg::ReleasePresenter { conn } => if game.presenter == Some(conn) {
            (WatchGame { presenter: None, ..game }, Some(Seq::empty()))
        } else {
            (game, None)
        },
        WatchMsg::Owned { .. } => (game, None),
        WatchMsg::Get => (game, None),
    }
}

/// Whether `reply` answers `msg`. A clone gets the next receiver id, provided
/// the requester may clone and there is a receiver to clone.
pub open spec fn answers(game: WatchGame, msg: WatchMsg, reply: WatchReply) -> bool {
    match msg {
        WatchMsg::CloneReceiver { requester, rx } => reply == WatchReply::Cloned(
            if may_clone(game, requester, rx) && game.created && index_of(game.receivers, rx)
                < game.receivers.len() {
                Some(game.next_rx)
            } else {
                None
            },
        ),
        WatchMsg::Owned { conn } => reply matches WatchReply::Owned(ids) && ids@ == ids_owned_by(
            game.receivers,
            conn,
        ),
        WatchMsg::Get => reply matches WatchReply::State(state) && game.shown_by(state),
        _ => reply is Nothing,
    }
}

/// Whether `events` is what goes out on the event plane: the animation
/// triggers in order, then the snapshot that is the actual authority.
pub open spec fn published(
    events: Seq<WatchEvent>,
    cues: Option<Seq<WatchEvent>>,
    game: WatchGame,
) -> bool {
    match cues {
        None => events.len() == 0,
        Some(cues) => {
            &&& events.len() == cues.len() + 1
            &&& forall|i: int| 0 <= i < cues.len() ==> #[trigger] events[i] == cues[i]
            &&& events.last() matches WatchEvent::Snapshot { state } && game.shown_by(state)
        },
    }
}

/// The id of the first receiver that `events` announces.
fn added_receiver(events: &Vec<WatchEvent>) -> (id: Option<u64>)
    ensures
        events@.len() == 0 ==> id is None,
        events@.len() == 1 ==> id == match events@[0] {
            WatchEvent::ReceiverAdded { id, .. } => Some(id),
            _ => None,
        },
{
    let mut i: usize = 0;
    while i < events.len()
        invariant
            i <= events@.len(),
            forall|j: int| 0 <= j < i ==> !(#[trigger] events@[j] is ReceiverAdded),
        decreases events@.len() - i,
    {
        match &events[i] {
            WatchEvent::ReceiverAdded { id, .. } => {
                return Some(*id);
            },
            _ => {},
        }
        i = i + 1;
    }
    None
}

/// The actor.
pub struct WatchService {
    sim: WatchSim,
}

impl View for WatchService {
    type V = WatchGame;

    closed spec fn view(&self) -> WatchGame {
        self.sim@
    }
}

impl Default for WatchService {
    fn default() -> (service: Self)
        ensures
            service.wf(),
            service@ == WatchGame::fresh(),
    {
        WatchService { sim: WatchSim::new() }
    }
}

impl WatchService {
    /// The game's invariant.
    pub open spec fn wf(&self) -> bool {
        self@.wf()
    }

    fn publish(&self, cues: Vec<WatchEvent>) -> (events: Vec<WatchEvent>)
        ensures
            published(events@, Some(cues@), self@),
    {
        let mut events = cues;
        events.push(WatchEvent::Snapshot { state: self.sim.snapshot() });
        events
    }

    /// Whether another message fits into the counters.
    pub fn has_room(&self) -> (room: bool)
        ensures
            room == self@.has_room(),
    {
        self.sim.has_room()
    }

    fn may_clone(&self, requester: u64, rx: u64) -> (may: bool)
        ensures
            may == may_clone(self@, requester, rx),
    {
        self.sim.owner_of(rx) == Some(requester) || self.sim.presenter() == Some(requester)
    }

    /// Carry out one message: what to answer, and what to publish.
    pub fn handle(&mut self, msg: &WatchMsg) -> (out: (WatchReply, Vec<WatchEvent>))
        requires
            old(self).wf(),
            old(self)@.has_room(),
        ensures
            final(self).wf(),
            final(self)@ == actor_step(old(self)@, *msg).0,
            published(out.1@, actor_step(old(self)@, *msg).1, final(self)@),
            answers(old(self)@, *msg, out.0),
    {
        let cues = match msg {
            WatchMsg::Send { conn, ch } => self.sim.handle(&WatchWire::Send { ch: *ch }, *conn),
            WatchMsg::Create { conn, init } => self.sim.handle(
                &WatchWire::Create { init: *init },
                *conn,
            ),
            WatchMsg::NewReceiver { conn } => self.sim.handle(&WatchWire::NewReceiver, *conn),
            WatchMsg::CloneReceiver { requester, rx } => {
                if self.may_clone(*requester, *rx) {
                    let cues = self.sim.handle(&WatchWire::CloneReceiver { rx: *rx }, *requester);
                    let fresh = added_receiver(&cues);
                    return (WatchReply::Cloned(fresh), self.publish(cues));
                }
                return (WatchReply::Cloned(None), Vec::new());
            },
            WatchMsg::AwaitChange { conn, rx } => self.sim.handle(
                &WatchWire::AwaitChange { rx: *rx },
                *conn,
            ),
            WatchMsg::LookInside { conn, rx } => self.sim.handle(
                &WatchWire::LookInside { rx: *rx },
                *conn,
            ),
            WatchMsg::DropReceiver { conn, rx } => self.sim.handle(
                &WatchWire::DropReceiver { rx: *rx },
                *conn,
            ),
            WatchMsg::Claim { conn } => {
                self.sim.set_presenter(Some(*conn));
                Vec::new()
            },
            WatchMsg::ReleasePresenter { conn } => {
                if self.sim.presenter() != Some(*conn) {
                    return (WatchReply::Nothing, Vec::new());
                }
                self.sim.set_presenter(None);
                Vec::new()
            },
            WatchMsg::Owned { conn } => {
                return (WatchReply::Owned(self.sim.owned_by(*conn)), Vec::new());
            },
            WatchMsg::Get => {
                return (WatchReply::State(self.sim.snapshot()), Vec::new());
            },
        };
        (WatchReply::Nothing, self.publish(cues))
    }
}

/// What a command arriving on a connection asks of the actor, if its role
/// allows it. Spectators only watch, and the presenter slot is the server's to
/// grant; ownership of receivers is the actor's to check.
pub open spec fn request(role: Role, conn: u64, wire: WatchWire) -> Option<WatchMsg> {
    if role is Spectator {
        None
    } else {
        match wire {
            WatchWire::Create { init } => Some(WatchMsg::Create { conn, init }),
            WatchWire::Send { ch } => Some(WatchMsg::Send { conn, ch }),
            WatchWire::NewReceiver => Some(WatchMsg::NewReceiver { conn }),
            WatchWire::CloneReceiver { rx } => Some(
                WatchMsg::CloneReceiver { requester: conn, rx },
            ),
            WatchWire::AwaitChange { rx } => Some(WatchMsg::AwaitChange { conn, rx }),
            WatchWire::LookInside { rx } => Some(WatchMsg::LookInside { conn, rx }),
            WatchWire::DropReceiver { rx } => Some(WatchMsg::DropReceiver { conn, rx }),
            WatchWire::ClaimPresenter => if role is Presenter {
                Some(WatchMsg::Claim { conn })
            } else {
                None
            },
        }
    }
}

/// What a command from the connection `conn` asks of the actor.
pub fn on_wire(role: Role, conn: u64, wire: &WatchWire) -> (msg: Option<WatchMsg>)
    ensures
        msg == request(role, conn, *wire),
{
    if !role.may_play() {
        return None;
    }
    match wire {
        WatchWire::Create { init } => Some(WatchMsg::Create { conn, init: *init }),
        WatchWire::Send { ch } => Some(WatchMsg::Send { conn, ch: *ch }),
        WatchWire::NewReceiver => Some(WatchMsg::NewReceiver { conn }),
        WatchWire::CloneReceiver { rx } => Some(
            WatchMsg::CloneReceiver { requester: conn, rx: *rx },
        ),
        WatchWire::AwaitChange { rx } => Some(WatchMsg::AwaitChange { conn, rx: *rx }),
        WatchWire::LookInside { rx } => Some(WatchMsg::LookInside { conn, rx: *rx }),
        WatchWire::DropReceiver { rx } => Some(WatchMsg::DropReceiver { conn, rx: *rx }),
        WatchWire::ClaimPresenter => if role.may_present() {
            Some(WatchMsg::Claim { conn })
        } else {
            None
        },
    }
}

/// What a connection that leaves tells the actor, given the receivers it owns:
/// drop each of them, then free the presenter slot.
pub open spec fn farewell(conn: u64, owned: Seq<u64>) -> Seq<WatchMsg> {
    owned.map_values(|rx: u64| WatchMsg::DropReceiver { conn, rx }).push(
        WatchMsg::ReleasePresenter { conn },
    )
}

/// Dropping the connection drops every receiver it owns; a send that one of
/// them had blocked goes through, or is refused, as a side effect.
pub fn close(conn: u64, owned: &Vec<u64>) -> (msgs: Vec<WatchMsg>)
    ensures
        msgs@ == farewell(conn, owned@),
{
    let mut msgs: Vec<WatchMsg> = Vec::new();
    let mut i: usize = 0;
    while i < owned.len()
        invariant
            i <= owned@.len(),
            msgs@ == owned@.take(i as int).map_values(
                |rx: u64| WatchMsg::DropReceiver { conn, rx },
            ),
        decreases owned@.len() - i,
    {
        msgs.push(WatchMsg::DropReceiver { conn, rx: owned[i] });
        i = i + 1;
        assert(msgs@ =~= owned@.take(i as int).map_values(
            |rx: u64| WatchMsg::DropReceiver { conn, rx },
        ));
    }
    assert(owned@.take(i as int) =~= owned@);
    msgs.push(WatchMsg::ReleasePresenter { conn });
    msgs
}

/// One connection: its id, and what it may do.
#[derive(Debug, Clone, Copy, PartialEq, Eq, Structural)]
pub struct WatchSocket {
    pub conn: u64,
    pub role: Role,
}

impl Client for WatchSocket {
    type Msg = WatchMsg;

    type Reply = WatchReply;

    type Event = WatchEvent;

    type Wire = WatchWire;

    open spec fn joins(&self) -> Option<WatchMsg> {
        None
    }

    open spec fn greeting(&self) -> Option<WatchEvent> {
        Some(WatchEvent::Hello { conn: self.conn })
    }

    open spec fn query(&self) -> WatchMsg {
        WatchMsg::Get
    }

    open spec fn state_in(&self, reply: WatchReply) -> Option<WatchEvent> {
        match reply {
            WatchReply::State(state) => Some(WatchEvent::Snapshot { state }),
            _ => None,
        }
    }

    open spec fn patient(&self) -> bool {
        true
    }

    open spec fn blank(&self, event: WatchEvent) -> bool {
        event matches WatchEvent::Snapshot { state } && WatchGame::fresh().shown_by(state)
    }

    open spec fn asks(&self, wire: WatchWire) -> Option<WatchMsg> {
        request(self.role, self.conn, wire)
    }

    open spec fn learns(&self, reply: WatchReply, after: &Self) -> bool {
        *after == *self
    }

    open spec fn question(&self) -> Option<WatchMsg> {
        Some(WatchMsg::Owned { conn: self.conn })
    }

    open spec fn farewells(&self, known: Option<WatchReply>) -> Seq<WatchMsg> {
        farewell(
            self.conn,
            match known {
                Some(WatchReply::Owned(ids)) => ids@,
                _ => Seq::empty(),
            },
        )
    }

    fn join(&self) -> (msg: Option<WatchMsg>) {
        None
    }

    fn hello(&self) -> (event: Option<WatchEvent>) {
        Some(WatchEvent::Hello { conn: self.conn })
    }

    fn get(&self) -> (msg: WatchMsg) {
        WatchMsg::Get
    }

    fn state(&self, reply: WatchReply) -> (event: Option<WatchEvent>) {
        match reply {
            WatchReply::State(state) => Some(WatchEvent::Snapshot { state }),
            _ => None,
        }
    }

    fn stand_in(&self) -> (event: Option<WatchEvent>) {
        Some(WatchEvent::Snapshot { state: WatchSim::new().snapshot() })
    }

    fn ask(&self, wire: WatchWire) -> (msg: Option<WatchMsg>) {
        on_wire(self.role, self.conn, &wire)
    }

    fn learn(&mut self, reply: WatchReply) {
    }

    fn leaving(&self) -> (msg: Option<WatchMsg>) {
        Some(WatchMsg::Owned { conn: self.conn })
    }

    fn farewell(&self, known: Option<WatchReply>) -> (msgs: Vec<WatchMsg>) {
        let owned = match known {
            Some(WatchReply::Owned(ids)) => ids,
            _ => Vec::new(),
        };
        close(self.conn, &owned)
    }
}

/// The state once `msgs` were carried out one after the other.
pub open spec fn after_all(game: WatchGame, msgs: Seq<WatchMsg>) -> WatchGame
    decreases msgs.len(),
{
    if msgs.len() == 0 {
        game
    } else {
        actor_step(after_all(game, msgs.drop_last()), msgs.last()).0
    }
}

spec fn ids_ascend(receivers: Seq<RxInfo>) -> bool {
    forall|i: int, j: int|
        #![trigger receivers[i], receivers[j]]
        0 <= i < j < receivers.len() ==> receivers[i].id < receivers[j].id
}

/// Every receiver in `after` was in `before`, under the same id and owner.
spec fn descends(after: Seq<RxInfo>, before: Seq<RxInfo>) -> bool {
    forall|k: int| 0 <= k < after.len() ==> has_ancestor(#[trigger] after[k], before)
}

spec fn has_ancestor(rx: RxInfo, before: Seq<RxInfo>) -> bool {
    exists|j: int|
        0 <= j < before.len() && (#[trigger] before[j]).id == rx.id && before[j].owner == rx.owner
}

proof fn lemma_drop_step(game: WatchGame, conn: u64, rx: u64)
    requires
        ids_ascend(game.receivers),
    ensures
        ({
            let after = actor_step(game, WatchMsg::DropReceiver { conn, rx }).0;
            &&& ids_ascend(after.receivers)
            &&& descends(after.receivers, game.receivers)
            &&& forall|k: int|
                0 <= k < after.receivers.len() ==> !((#[trigger] after.receivers[k]).id == rx
                    && after.receivers[k].owner == conn)
        }),
{
    lemma_index_of(game.receivers, rx);
    let after = actor_step(game, WatchMsg::DropReceiver { conn, rx }).0;
    let i = index_of(game.receivers, rx);
    if game.operable(rx, conn) {
        let left = game.receivers.remove(i);
        assert(after.receivers.len() == left.len());
        assert(forall|k: int|
            0 <= k < left.len() ==> (#[trigger] after.receivers[k]).id == left[k].id
                && after.receivers[k].owner == left[k].owner);
        assert forall|k: int| 0 <= k < after.receivers.len() implies has_ancestor(
            #[trigger] after.receivers[k],
            game.receivers,
        ) by {
            let j = if k < i {
                k
            } else {
                k + 1
            };
            assert(game.receivers[j].id == after.receivers[k].id);
        }
        assert forall|k: int| 0 <= k < after.receivers.len() implies (
        #[trigger] after.receivers[k]).id != rx by {
            let j = if k < i {
                k
            } else {
                k + 1
            };
            assert(left[k] == game.receivers[j]);
            assert(game.receivers[i].id == rx);
        }
    } else {
        assert forall|k: int| 0 <= k < after.receivers.len() implies has_ancestor(
            #[trigger] after.receivers[k],
            game.receivers,
        ) by {
            assert(game.receivers[k].id == after.receivers[k].id);
        }
        assert forall|k: int| 0 <= k < after.receivers.len() implies !((
        #[trigger] after.receivers[k]).id == rx && after.receivers[k].owner == conn) by {
            if game.receivers[k].id == rx {
                assert(game.receivers[i].id == game.receivers[k].id);
            }
        }
    }
}

proof fn lemma_drop_all(game: WatchGame, conn: u64, owned: Seq<u64>)
    requires
        ids_ascend(game.receivers),
    ensures
        ({
            let drops = owned.map_values(|rx: u64| WatchMsg::DropReceiver { conn, rx });
            let after = after_all(game, drops);
            &&& ids_ascend(after.receivers)
            &&& descends(after.receivers, game.receivers)
            &&& forall|k: int|
                0 <= k < after.receivers.len() ==> !(owned.contains(
                    (#[trigger] after.receivers[k]).id,
                ) && after.receivers[k].owner == conn)
        }),
    decreases owned.len(),
{
    let drops = owned.map_values(|rx: u64| WatchMsg::DropReceiver { conn, rx });
    let after = after_all(game, drops);
    if owned.len() == 0 {
        assert forall|k: int| 0 <= k < after.receivers.len() implies has_ancestor(
            #[trigger] after.receivers[k],
            game.receivers,
        ) by {
            assert(game.receivers[k].id == after.receivers[k].id);
        }
    } else {
        let rest = owned.drop_last();
        lemma_drop_all(game, conn, rest);
        assert(drops.drop_last() =~= rest.map_values(
            |rx: u64| WatchMsg::DropReceiver { conn, rx },
        ));
        let before = after_all(game, drops.drop_last());
        lemma_drop_step(before, conn, owned.last());
        assert forall|k: int| 0 <= k < after.receivers.len() implies has_ancestor(
            #[trigger] after.receivers[k],
            game.receivers,
        ) && !(owned.contains(after.receivers[k].id) && after.receivers[k].owner == conn) by {
            assert(has_ancestor(after.receivers[k], before.receivers));
            let j = choose|j: int|
                0 <= j < before.receivers.len() && (#[trigger] before.receivers[j]).id
                    == after.receivers[k].id && before.receivers[j].owner
                    == after.receivers[k].owner;
            assert(has_ancestor(before.receivers[j], game.receivers));
            if owned.contains(after.receivers[k].id) && after.receivers[k].owner == conn {
                let m = choose|m: int|
                    0 <= m < owned.len() && owned[m] == after.receivers[k].id;
                if m < rest.len() {
                    assert(rest[m] == owned[m]);
                }
            }
        }
    }
}

/// Leaving frees everything: once a connection's farewell was carried out it
/// owns no receiver and does not hold the presenter slot, and every receiver
/// that is left was there before.
pub proof fn law_leaving_frees_every_receiver(game: WatchGame, conn: u64)
    requires
        game.wf(),
    ensures
        ({
            let after = after_all(game, farewell(conn, ids_owned_by(game.receivers, conn)));
            &&& after.presenter != Some(conn)
            &&& forall|k: int|
                0 <= k < after.receivers.len() ==> (#[trigger] after.receivers[k]).owner != conn
                    && exists|j: int|
                    0 <= j < game.receivers.len() && (#[trigger] game.receivers[j]).id
                        == after.receivers[k].id
        }),
{
    let owned = ids_owned_by(game.receivers, conn);
    let drops = owned.map_values(|rx: u64| WatchMsg::DropReceiver { conn, rx });
    lemma_drop_all(game, conn, owned);
    assert(farewell(conn, owned).drop_last() =~= drops);
    let after = after_all(game, farewell(conn, owned));
    assert forall|k: int| 0 <= k < after.receivers.len() implies (
    #[trigger] after.receivers[k]).owner != conn && exists|j: int|
        0 <= j < game.receivers.len() && (#[trigger] game.receivers[j]).id
            == after.receivers[k].id by {
        assert(after.receivers == after_all(game, drops).receivers);
        assert(has_ancestor(after.receivers[k], game.receivers));
        let j = choose|j: int|
            0 <= j < game.receivers.len() && (#[trigger] game.receivers[j]).id
                == after.receivers[k].id && game.receivers[j].owner == after.receivers[k].owner;
        if after.receivers[k].owner == conn {
            lemma_owned_ids(game.receivers, conn, j);
        }
    }
}

/// Spectators only watch: whatever they send, the actor hears nothing of it.
pub proof fn law_spectators_only_watch(conn: u64, wire: WatchWire)
    ensures
        request(Role::Spectator, conn, wire) is None,
{
}

/// The presenter slot is granted, not asked for: only a presenter's connection
/// ever claims it, and only for itself.
pub proof fn law_presenter_slot_is_granted(role: Role, conn: u64, wire: WatchWire, claimer: u64)
    requires
        request(role, conn, wire) == Some(WatchMsg::Claim { conn: claimer }),
    ensures
        role is Presenter,
        claimer == conn,
{
}

/// What a connection may ask for is what the game carries out: every command
/// of a player but a claim reaches the actor, and every command of a presenter
/// does. There it does to the game, and announces, exactly what the command
/// itself would; a clone only if the connection owns the receiver or presents,
/// and a claim gives the connection the presenter slot and touches nothing
/// else.
pub proof fn law_requests_are_carried_out(
    game: WatchGame,
    role: Role,
    conn: u64,
    wire: WatchWire,
)
    ensures
        request(role, conn, wire) is None <==> role is Spectator || (wire is ClaimPresenter && !(
        role is Presenter)),
        request(role, conn, wire) matches Some(msg) ==> {
            let (after, cues) = actor_step(game, msg);
            match wire {
                WatchWire::ClaimPresenter => after == (WatchGame { presenter: Some(conn), ..game })
                    && cues == Some(Seq::<WatchEvent>::empty()),
                WatchWire::CloneReceiver { rx } if game.presenter != Some(conn) && !(exists|i: int|
                    0 <= i < game.receivers.len() && (#[trigger] game.receivers[i]).id == rx
                        && game.receivers[i].owner == conn && i == index_of(game.receivers, rx)) =>
                    after == game && cues is None,
                _ => after == game.step(wire, conn).0 && cues == Some(game.step(wire, conn).1),
            }
        },
{
    match wire {
        WatchWire::CloneReceiver { rx } => {
            lemma_index_of(game.receivers, rx);
            if game.operable(rx, conn) {
                let i = index_of(game.receivers, rx);
                assert(game.receivers[i].id == rx && game.receivers[i].owner == conn);
            }
        },
        _ => {},
    }
}

/// Whether one of the receivers bears this id and belongs to `conn`.
pub open spec fn has_receiver_of(receivers: Seq<RxInfo>, conn: u64, id: u64) -> bool {
    exists|j: int|
        0 <= j < receivers.len() && (#[trigger] receivers[j]).owner == conn && receivers[j].id == id
}

/// Asking changes and publishes nothing, and is answered from the state as it
/// is: the whole of it, or the ids of exactly the receivers that the
/// connection owns.
pub proof fn law_asking_changes_nothing(
    game: WatchGame,
    conn: u64,
    state: WatchReply,
    owned: WatchReply,
    i: int,
)
    requires
        answers(game, WatchMsg::Get, state),
        answers(game, WatchMsg::Owned { conn }, owned),
        0 <= i < game.receivers.len(),
    ensures
        actor_step(game, WatchMsg::Get) == (game, None::<Seq<WatchEvent>>),
        actor_step(game, WatchMsg::Owned { conn }) == (game, None::<Seq<WatchEvent>>),
        state matches WatchReply::State(shown) && shown.value == game.value && shown.version
            == game.version && shown.receivers@ == game.receivers && shown.presenter
            == game.presenter && shown.created == game.created && shown.pending_send
            == game.pending_send,
        owned is Owned,
        game.receivers[i].owner == conn ==> owned->Owned_0@.contains(game.receivers[i].id),
        forall|k: int|
            0 <= k < owned->Owned_0@.len() ==> has_receiver_of(
                game.receivers,
                conn,
                #[trigger] owned->Owned_0@[k],
            ),
{
    if game.receivers[i].owner == conn {
        lemma_owned_ids(game.receivers, conn, i);
    }
    let ids = owned->Owned_0@;
    assert forall|k: int| 0 <= k < ids.len() implies has_receiver_of(
        game.receivers,
        conn,
        #[trigger] ids[k],
    ) by {
        lemma_ids_are_owned(game.receivers, conn, k);
    }
}

proof fn lemma_ids_are_owned(receivers: Seq<RxInfo>, conn: u64, k: int)
    requires
        0 <= k < ids_owned_by(receivers, conn).len(),
    ensures
        has_receiver_of(receivers, conn, ids_owned_by(receivers, conn)[k]),
    decreases receivers.len(),
{
    if receivers.len() > 0 {
        let rest = receivers.drop_last();
        if k < ids_owned_by(rest, conn).len() {
            lemma_ids_are_owned(rest, conn, k);
            let j = choose|j: int|
                0 <= j < rest.len() && (#[trigger] rest[j]).owner == conn && rest[j].id
                    == ids_owned_by(rest, conn)[k];
            assert(receivers[j] == rest[j]);
        } else {
            assert(receivers[receivers.len() - 1].owner == conn);
        }
    }
}

/// A clone is answered with the id under which the new receiver appears, and
/// with nothing where none appears; a release frees the slot for whoever holds
/// it alone.
pub proof fn law_clone_is_answered_with_its_id(
    game: WatchGame,
    requester: u64,
    rx: u64,
    reply: WatchReply,
)
    requires
        game.has_room(),
        answers(game, WatchMsg::CloneReceiver { requester, rx }, reply),
    ensures
        ({
            let after = actor_step(game, WatchMsg::CloneReceiver { requester, rx }).0;
            match reply {
                WatchReply::Cloned(Some(id)) => {
                    &&& after.receivers.len() == game.receivers.len() + 1
                    &&& after.receivers.last().id == id
                    &&& after.receivers.last().owner == requester
                },
                WatchReply::Cloned(None) => after == game,
                _ => false,
            }
        }),
        ({
            let (after, cues) = actor_step(game, WatchMsg::ReleasePresenter { conn: requester });
            &&& after.presenter == if game.presenter == Some(requester) {
                None
            } else {
                game.presenter
            }
            &&& after == (WatchGame { presenter: after.presenter, ..game })
            &&& cues is Some <==> game.presenter == Some(requester)
        }),
{
}

/// What goes out is the triggers in order and then the state, and nothing goes
/// out where nothing was called for.
pub proof fn law_snapshot_goes_out_last(
    events: Seq<WatchEvent>,
    cues: Option<Seq<WatchEvent>>,
    game: WatchGame,
)
    requires
        published(events, cues, game),
    ensures
        cues is None ==> events.len() == 0,
        cues matches Some(cues) ==> {
            &&& events.len() > 0
            &&& events.drop_last() == cues
            &&& events.last() matches WatchEvent::Snapshot { state } && state.value == game.value
                && state.version == game.version && state.receivers@ == game.receivers
        },
{
    if cues is Some {
        assert(events.drop_last() =~= cues->Some_0);
    }
}

/// Whoever leaves says so for each receiver it owns, and then gives up the
/// presenter slot.
pub proof fn law_farewell_names_every_receiver(conn: u64, owned: Seq<u64>, i: int)
    requires
        0 <= i < owned.len(),
    ensures
        farewell(conn, owned).len() == owned.len() + 1,
        farewell(conn, owned)[i] == (WatchMsg::DropReceiver { conn, rx: owned[i] }),
        farewell(conn, owned).last() == (WatchMsg::ReleasePresenter { conn }),
{
}

/// What the session knows of a watch client: it is greeted with its id, shown
/// the state in the answer, heard as its role allows, and asked what it owns
/// before it leaves, all of which it then drops.
pub proof fn law_client_drops_what_it_owns(
    client: WatchSocket,
    state: WatchSnapshot,
    wire: WatchWire,
    owned: Vec<u64>,
)
    ensures
        client.joins() is None,
        client.greeting() == Some(WatchEvent::Hello { conn: client.conn }),
        client.query() == WatchMsg::Get,
        client.state_in(WatchReply::State(state)) == Some(WatchEvent::Snapshot { state }),
        client.asks(wire) == request(client.role, client.conn, wire),
        client.question() == Some(WatchMsg::Owned { conn: client.conn }),
        client.farewells(Some(WatchReply::Owned(owned))) == farewell(client.conn, owned@),
        client.farewells(None) == farewell(client.conn, Seq::empty()),
        client.patient(),
{
}

/// No answer changes who the client is, and what stands for an answer that did
/// not come is the picture of a fresh game.
pub proof fn law_client_keeps_its_identity(
    client: WatchSocket,
    reply: WatchReply,
    after: WatchSocket,
    event: WatchEvent,
)
    requires
        client.learns(reply, &after),
    ensures
        after == client,
        client.blank(event) <==> event is Snapshot && WatchGame::fresh().shown_by(event->state),
{
}

} // verus!

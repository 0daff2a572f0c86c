//! The broadcast actor: one ring buffer, cloneable senders, one receiver per
//! connection and one event plane.
//!
//! After every change the actor publishes the full snapshot; the other events
//! only carry animation triggers. Sending is free: a full buffer evicts its
//! oldest value.

use vstd::prelude::*;

use crate::protocol::{
    BroadcastEvent, BroadcastSnapshot, BroadcastWire, Role, RxState, SenderInfo,
};
use crate::server::session::Client;
use crate::sim::broadcast::{
    departs, staying_receivers, staying_senders, BroadcastGame, BroadcastSim,
};

verus! {

/// What the sockets tell the actor.
#[derive(Debug, Clone, Copy, PartialEq, Eq, Structural)]
pub enum BroadcastMsg {
    /// Send from the handle `handle`, which must be owned by `conn`.
    Send { conn: u64, handle: u64, ch: char },
    /// Clone the sender `source` for `requester`.
    Clone { requester: u64, source: u64 },
    /// Subscribe a receiver owned by `conn` (one per connection).
    Subscribe { conn: u64 },
    /// Receive on a receiver `conn` owns.
    Receive { conn: u64, receiver: u64 },
    /// Drop a receiver `conn` owns.
    Unsubscribe { conn: u64, receiver: u64 },
    /// Claim the presenter slot; host-owned senders transfer to the claimer.
    Claim { conn: u64 },
    /// The connection left: drop its handles and receiver.
    DropConnection { conn: u64 },
    /// Ask for the current state.
    Get,
}

/// What a message does to the state, and the animation triggers it calls for;
/// `None` where nothing is published.
pub open spec fn actor_step(game: BroadcastGame, msg: BroadcastMsg) -> (BroadcastGame, Option<
    Seq<BroadcastEvent>,
>) {
    let played = |wire: BroadcastWire, conn: u64|
        {
            let (after, cues) = game.step(wire, conn);
            (after, Some(cues))
        };
    match msg {
        BroadcastMsg::Send { conn, handle, ch } => played(
            BroadcastWire::Send { conn: handle, ch },
            conn,
        ),
        BroadcastMsg::Clone { requester, source } => played(
            BroadcastWire::CloneSender { source },
            requester,
        ),
        BroadcastMsg::Subscribe { conn } => played(BroadcastWire::Subscribe, conn),
        BroadcastMsg::Receive { conn, receiver } => played(
            BroadcastWire::Receive { receiver },
            conn,
        ),
        BroadcastMsg::Unsubscribe { conn, receiver } => played(
            BroadcastWire::Unsubscribe { receiver },
            conn,
        ),
        // a claim moves ownership, which the snapshot shows; nothing flies
        BroadcastMsg::Claim { conn } => (
            game.step(BroadcastWire::ClaimPresenter, conn).0,
            Some(Seq::empty()),
        ),
        BroadcastMsg::DropConnection { conn } => {
            let (after, cues) = game.leave(conn);
            (after, Some(cues))
        },
        BroadcastMsg::Get => (game, None),
    }
}

/// Whether `events` is what goes out on the event plane: the animation
/// triggers in order, then the snapshot that is the actual authority.
pub open spec fn published(
    events: Seq<BroadcastEvent>,
    cues: Option<Seq<BroadcastEvent>>,
    game: BroadcastGame,
) -> bool {
    match cues {
        None => events.len() == 0,
        Some(cues) => {
            &&& events.len() == cues.len() + 1
            &&& forall|i: int| 0 <= i < cues.len() ==> #[trigger] events[i] == cues[i]
            &&& events.last() matches BroadcastEvent::Snapshot { state } && game.shown_by(state)
        },
    }
}

/// The actor.
pub struct BroadcastService {
    sim: BroadcastSim,
}

impl View for BroadcastService {
    type V = BroadcastGame;

    closed spec fn view(&self) -> BroadcastGame {
        self.sim@
    }
}

impl Default for BroadcastService {
    fn default() -> (service: Self)
        ensures
            service.wf(),
            service@ == BroadcastGame::fresh(),
    {
        BroadcastService { sim: BroadcastSim::new() }
    }
}

impl BroadcastService {
    /// The sim's invariant.
    pub closed spec fn wf(&self) -> bool {
        self.sim.wf()
    }

    fn publish(&self, cues: Vec<BroadcastEvent>) -> (events: Vec<BroadcastEvent>)
        requires
            self.wf(),
        ensures
            published(events@, Some(cues@), self@),
    {
        let mut events = cues;
        events.push(BroadcastEvent::Snapshot { state: self.sim.snapshot() });
        events
    }

    /// Whether another message fits into the counters.
    pub fn has_room(&self) -> (room: bool)
        requires
            self.wf(),
        ensures
            room == self@.has_room(),
    {
        self.sim.has_room()
    }

    /// Carry out one message: what to answer, and what to publish.
    pub fn handle(&mut self, msg: &BroadcastMsg) -> (out: (
        Option<BroadcastSnapshot>,
        Vec<BroadcastEvent>,
    ))
        requires
            old(self).wf(),
            old(self)@.has_room(),
        ensures
            final(self).wf(),
            final(self)@ == actor_step(old(self)@, *msg).0,
            published(out.1@, actor_step(old(self)@, *msg).1, final(self)@),
            match msg {
                BroadcastMsg::Get => out.0 matches Some(state) && old(self)@.shown_by(state),
                _ => out.0 is None,
            },
    {
        let cues = match msg {
            BroadcastMsg::Send { conn, handle, ch } => self.sim.handle(
                &BroadcastWire::Send { conn: *handle, ch: *ch },
                *conn,
            ),
            BroadcastMsg::Clone { requester, source } => self.sim.handle(
                &BroadcastWire::CloneSender { source: *source },
                *requester,
            ),
            BroadcastMsg::Subscribe { conn } => self.sim.handle(&BroadcastWire::Subscribe, *conn),
            BroadcastMsg::Receive { conn, receiver } => self.sim.handle(
                &BroadcastWire::Receive { receiver: *receiver },
                *conn,
            ),
            BroadcastMsg::Unsubscribe { conn, receiver } => self.sim.handle(
                &BroadcastWire::Unsubscribe { receiver: *receiver },
                *conn,
            ),
            BroadcastMsg::Claim { conn } => {
                self.sim.handle(&BroadcastWire::ClaimPresenter, *conn);
                Vec::new()
            },
            BroadcastMsg::DropConnection { conn } => self.sim.drop_connection(*conn),
            BroadcastMsg::Get => {
                return (Some(self.sim.snapshot()), Vec::new());
            },
        };
        (None, self.publish(cues))
    }
}

/// What a command arriving on a connection asks of the actor, if its role
/// allows it.
///
/// Spectators are present but handle-less: they watch the fan-out without
/// being part of it. The presenter slot is granted by the server, not asked for
/// by the client. Ownership of handles is the actor's to check.
pub open spec fn request(role: Role, conn: u64, wire: BroadcastWire) -> Option<BroadcastMsg> {
    if role is Spectator {
        None
    } else {
        match wire {
            BroadcastWire::Send { conn: handle, ch } => Some(
                BroadcastMsg::Send { conn, handle, ch },
            ),
            BroadcastWire::CloneSender { source } => Some(
                BroadcastMsg::Clone { requester: conn, source },
            ),
            BroadcastWire::Subscribe => Some(BroadcastMsg::Subscribe { conn }),
            BroadcastWire::Receive { receiver } => Some(BroadcastMsg::Receive { conn, receiver }),
            BroadcastWire::Unsubscribe { receiver } => Some(
                BroadcastMsg::Unsubscribe { conn, receiver },
            ),
            BroadcastWire::ClaimPresenter => if role is Presenter {
                Some(BroadcastMsg::Claim { conn })
            } else {
                None
            },
        }
    }
}

/// What a command from the connection `conn` asks of the actor.
pub fn on_wire(role: Role, conn: u64, wire: &BroadcastWire) -> (msg: Option<BroadcastMsg>)
    ensures
        msg == request(role, conn, *wire),
{
    if !role.may_play() {
        return None;
    }
    match wire {
        BroadcastWire::Send { conn: handle, ch } => Some(
            BroadcastMsg::Send { conn, handle: *handle, ch: *ch },
        ),
        BroadcastWire::CloneSender { source } => Some(
            BroadcastMsg::Clone { requester: conn, source: *source },
        ),
        BroadcastWire::Subscribe => Some(BroadcastMsg::Subscribe { conn }),
        BroadcastWire::Receive { receiver } => Some(
            BroadcastMsg::Receive { conn, receiver: *receiver },
        ),
        BroadcastWire::Unsubscribe { receiver } => Some(
            BroadcastMsg::Unsubscribe { conn, receiver: *receiver },
        ),
        BroadcastWire::ClaimPresenter => if role.may_present() {
            Some(BroadcastMsg::Claim { conn })
        } else {
            None
        },
    }
}

/// One connection: its id, and what it may do.
#[derive(Debug, Clone, Copy, PartialEq, Eq, Structural)]
pub struct BroadcastSocket {
    pub conn: u64,
    pub role: Role,
}

impl Client for BroadcastSocket {
    type Msg = BroadcastMsg;

    type Reply = Option<BroadcastSnapshot>;

    type Event = BroadcastEvent;

    type Wire = BroadcastWire;

    open spec fn joins(&self) -> Option<BroadcastMsg> {
        None
    }

    open spec fn greeting(&self) -> Option<BroadcastEvent> {
        Some(BroadcastEvent::Hello { conn: self.conn })
    }

    open spec fn query(&self) -> BroadcastMsg {
        BroadcastMsg::Get
    }

    open spec fn state_in(&self, reply: Option<BroadcastSnapshot>) -> Option<BroadcastEvent> {
        match reply {
            Some(state) => Some(BroadcastEvent::Snapshot { state }),
            None => None,
        }
    }

    open spec fn patient(&self) -> bool {
        true
    }

    open spec fn blank(&self, event: BroadcastEvent) -> bool {
        event matches BroadcastEvent::Snapshot { state } && BroadcastGame::fresh().shown_by(state)
    }

    open spec fn asks(&self, wire: BroadcastWire) -> Option<BroadcastMsg> {
        request(self.role, self.conn, wire)
    }

    open spec fn learns(&self, reply: Option<BroadcastSnapshot>, after: &Self) -> bool {
        *after == *self
    }

    open spec fn question(&self) -> Option<BroadcastMsg> {
        None
    }

    open spec fn farewells(&self, known: Option<Option<BroadcastSnapshot>>) -> Seq<BroadcastMsg> {
        seq![BroadcastMsg::DropConnection { conn: self.conn }]
    }

    fn join(&self) -> (msg: Option<BroadcastMsg>) {
        None
    }

    fn hello(&self) -> (event: Option<BroadcastEvent>) {
        Some(BroadcastEvent::Hello { conn: self.conn })
    }

    fn get(&self) -> (msg: BroadcastMsg) {
        BroadcastMsg::Get
    }

    fn state(&self, reply: Option<BroadcastSnapshot>) -> (event: Option<BroadcastEvent>) {
        match reply {
            Some(state) => Some(BroadcastEvent::Snapshot { state }),
            None => None,
        }
    }

    fn stand_in(&self) -> (event: Option<BroadcastEvent>) {
        Some(BroadcastEvent::Snapshot { state: BroadcastSim::new().snapshot() })
    }

    fn ask(&self, wire: BroadcastWire) -> (msg: Option<BroadcastMsg>) {
        on_wire(self.role, self.conn, &wire)
    }

    fn learn(&mut self, reply: Option<BroadcastSnapshot>) {
    }

    fn leaving(&self) -> (msg: Option<BroadcastMsg>) {
        None
    }

    fn farewell(&self, known: Option<Option<BroadcastSnapshot>>) -> (msgs: Vec<BroadcastMsg>) {
        let mut msgs: Vec<BroadcastMsg> = Vec::new();
        msgs.push(BroadcastMsg::DropConnection { conn: self.conn });
        assert(msgs@ =~= self.farewells(known));
        msgs
    }
}

proof fn lemma_stayers(senders: Seq<SenderInfo>, receivers: Seq<RxState>, conn: u64)
    ensures
        forall|i: int|
            0 <= i < staying_senders(senders, conn).len() ==> !departs(
                #[trigger] staying_senders(senders, conn)[i],
                conn,
            ),
        forall|i: int|
            0 <= i < staying_receivers(receivers, conn).len() ==> (
            #[trigger] staying_receivers(receivers, conn)[i]).owner != conn,
    decreases senders.len() + receivers.len(),
{
    if senders.len() > 0 {
        lemma_stayers(senders.drop_last(), receivers, conn);
        let before = staying_senders(senders.drop_last(), conn);
        assert forall|i: int| 0 <= i < staying_senders(senders, conn).len() implies !departs(
            #[trigger] staying_senders(senders, conn)[i],
            conn,
        ) by {
            if i < before.len() {
                assert(!departs(before[i], conn));
            }
        }
    }
    if receivers.len() > 0 {
        lemma_stayers(senders, receivers.drop_last(), conn);
    }
}

/// Leaving frees everything: once a connection was dropped it owns no sender
/// and no receiver, and does not hold the presenter slot; the values in the
/// ring stay.
pub proof fn law_leaving_frees_every_handle(game: BroadcastGame, conn: u64)
    ensures
        ({
            let after = actor_step(game, BroadcastMsg::DropConnection { conn }).0;
            &&& after.presenter != Some(conn)
            &&& after.sent == game.sent
            &&& forall|i: int|
                0 <= i < after.senders.len() ==> (#[trigger] after.senders[i]).owner != conn
            &&& forall|i: int|
                0 <= i < after.receivers.len() ==> (#[trigger] after.receivers[i]).owner != conn
        }),
{
    lemma_stayers(game.senders, game.receivers, conn);
    let after = actor_step(game, BroadcastMsg::DropConnection { conn }).0;
    assert(forall|i: int|
        0 <= i < after.senders.len() ==> !departs(#[trigger] after.senders[i], conn));
}

/// Spectators only watch: whatever they send, the actor hears nothing of it.
pub proof fn law_spectators_only_watch(conn: u64, wire: BroadcastWire)
    ensures
        request(Role::Spectator, conn, wire) is None,
{
}

/// The presenter slot is granted, not asked for: only a presenter's connection
/// ever claims it, and only for itself.
pub proof fn law_presenter_slot_is_granted(
    role: Role,
    conn: u64,
    wire: BroadcastWire,
    claimer: u64,
)
    requires
        request(role, conn, wire) == Some(BroadcastMsg::Claim { conn: claimer }),
    ensures
        role is Presenter,
        claimer == conn,
{
}

/// What a connection may ask for is what the game carries out: every command
/// of a player but a claim reaches the actor, and every command of a presenter
/// does; there it does to the game exactly what the command itself would, and
/// announces it, but for a claim, which the snapshot shows.
pub proof fn law_requests_are_carried_out(
    game: BroadcastGame,
    role: Role,
    conn: u64,
    wire: BroadcastWire,
)
    ensures
        request(role, conn, wire) is None <==> role is Spectator || (wire is ClaimPresenter && !(
        role is Presenter)),
        request(role, conn, wire) matches Some(msg) ==> {
            let (after, cues) = actor_step(game, msg);
            &&& after == game.step(wire, conn).0
            &&& cues == Some(
                if wire is ClaimPresenter {
                    Seq::empty()
                } else {
                    game.step(wire, conn).1
                },
            )
        },
{
}

/// Asking changes and publishes nothing; a connection that leaves does to the
/// game, and announces, what its leaving does.
pub proof fn law_asking_changes_nothing(game: BroadcastGame, conn: u64)
    ensures
        actor_step(game, BroadcastMsg::Get) == (game, None::<Seq<BroadcastEvent>>),
        actor_step(game, BroadcastMsg::DropConnection { conn }).0 == game.leave(conn).0,
        actor_step(game, BroadcastMsg::DropConnection { conn }).1 == Some(game.leave(conn).1),
{
}

/// What goes out is the triggers in order and then the state, and nothing goes
/// out where nothing was called for.
pub proof fn law_snapshot_goes_out_last(
    events: Seq<BroadcastEvent>,
    cues: Option<Seq<BroadcastEvent>>,
    game: BroadcastGame,
)
    requires
        published(events, cues, game),
    ensures
        cues is None ==> events.len() == 0,
        cues matches Some(cues) ==> {
            &&& events.len() > 0
            &&& events.drop_last() == cues
            &&& events.last() matches BroadcastEvent::Snapshot { state } && state.senders@
                == game.senders && state.receivers@ == game.receivers && state.tail
                == game.sent.len() && state.buffer@ == game.ring()
        },
{
    if cues is Some {
        assert(events.drop_last() =~= cues->Some_0);
    }
}

/// What the session knows of a broadcast client: it is greeted with its id,
/// shown the state in the answer, heard as its role allows, and its connection
/// is dropped when it leaves.
pub proof fn law_client_drops_its_connection(
    client: BroadcastSocket,
    state: BroadcastSnapshot,
    wire: BroadcastWire,
)
    ensures
        client.joins() is None,
        client.greeting() == Some(BroadcastEvent::Hello { conn: client.conn }),
        client.query() == BroadcastMsg::Get,
        client.state_in(Some(state)) == Some(BroadcastEvent::Snapshot { state }),
        client.asks(wire) == request(client.role, client.conn, wire),
        client.question() is None,
        client.farewells(None) == seq![BroadcastMsg::DropConnection { conn: client.conn }],
        client.patient(),
{
}

/// No answer changes who the client is, and what stands for an answer that did
/// not come is the picture of a fresh game.
pub proof fn law_client_keeps_its_identity(
    client: BroadcastSocket,
    reply: Option<BroadcastSnapshot>,
    after: BroadcastSocket,
    event: BroadcastEvent,
)
    requires
        client.learns(reply, &after),
    ensures
        after == client,
        client.blank(event) <==> event is Snapshot && BroadcastGame::fresh().shown_by(event->state),
{
}

} // verus!

//! The mpsc actor: one bounded channel, one presenter slot, one event plane.
//!
//! After every change the actor publishes the full snapshot; the other events
//! only carry animation triggers.

use vstd::prelude::*;

use crate::protocol::{MpscEvent, MpscSnapshot, MpscWire, Role, MPSC_FLIGHT_MS};
use crate::server::auth::ConnIds;
use crate::server::session::Client;
use crate::sim::mpsc::{without_handle, Handle, MpscGame, MpscSim};

verus! {

/// What the sockets tell the actor.
#[derive(Debug, Clone, Copy, PartialEq, Eq, Structural)]
pub enum MpscMsg {
    Send { conn: u64, ch: char },
    Receive,
    AddSender { conn: u64, owner: u64 },
    RemoveSender { conn: u64 },
    /// Clone the requester's handle; answered with the new handle, or with
    /// `None` when the requester does not hold the presenter slot.
    Clone { requester: u64 },
    /// Claim the presenter slot (last claim wins).
    Claim { conn: u64 },
    /// Ask for the current state.
    Get,
}

/// What the actor answers.
#[derive(Debug, Clone, PartialEq)]
pub enum MpscReply {
    Nothing,
    Cloned(Option<u64>),
    State(MpscSnapshot),
}

/// The actor's state as a mathematical value.
#[verifier::ext_equal]
pub struct MpscActor {
    pub game: MpscGame,
    pub presenter: Option<u64>,
}

impl MpscActor {
    /// What a message does to the state, and the animation triggers it calls
    /// for; `None` where nothing is published. `fresh` is the id that the next
    /// handle gets.
    pub open spec fn step(self, msg: MpscMsg, fresh: u64) -> (Self, Option<Seq<MpscEvent>>) {
        match msg {
            MpscMsg::Send { conn, ch } => {
                let (game, cues) = self.game.step(MpscWire::Send { conn, ch }, conn);
                (MpscActor { game, ..self }, Some(cues))
            },
            MpscMsg::Receive => {
                let (game, cues) = self.game.step(MpscWire::Receive, 0);
                (MpscActor { game, ..self }, Some(cues))
            },
            MpscMsg::AddSender { conn, owner } => {
                let (game, cues) = self.game.join(conn, owner);
                (MpscActor { game, ..self }, Some(cues))
            },
            MpscMsg::RemoveSender { conn } => {
                let (game, cues) = self.game.leave(conn);
                let presenter = if self.presenter == Some(conn) {
                    None
                } else {
                    self.presenter
                };
                (MpscActor { game, presenter }, Some(cues))
            },
            MpscMsg::Clone { requester } => if self.presenter == Some(requester) {
                let (game, cues) = self.game.join(fresh, requester);
                (MpscActor { game, ..self }, Some(cues))
            } else {
                (self, None)
            },
            MpscMsg::Claim { conn } => (MpscActor { presenter: Some(conn), ..self }, None),
            MpscMsg::Get => (self, None),
        }
    }

    /// Whether `reply` answers `msg`.
    pub open spec fn answers(self, msg: MpscMsg, fresh: u64, reply: MpscReply) -> bool {
        match msg {
            MpscMsg::Clone { requester } => reply == MpscReply::Cloned(
                if self.presenter == Some(requester) {
                    Some(fresh)
                } else {
                    None
                },
            ),
            MpscMsg::Get => reply matches MpscReply::State(state) && self.game.shown_by(state),
            _ => reply is Nothing,
        }
    }
}

/// Whether `events` is what goes out on the event plane: the animation
/// triggers in order, then the snapshot that is the actual authority.
pub open spec fn published(
    events: Seq<MpscEvent>,
    cues: Option<Seq<MpscEvent>>,
    game: MpscGame,
) -> bool {
    match cues {
        None => events.len() == 0,
        Some(cues) => {
            &&& events.len() == cues.len() + 1
            &&& forall|i: int| 0 <= i < cues.len() ==> #[trigger] events[i] == cues[i]
            &&& events.last() matches MpscEvent::Snapshot { state } && game.shown_by(state)
        },
    }
}

/// The actor.
pub struct MpscService {
    sim: MpscSim,
    presenter: Option<u64>,
}

impl View for MpscService {
    type V = MpscActor;

    closed spec fn view(&self) -> MpscActor {
        MpscActor { game: self.sim@, presenter: self.presenter }
    }
}

impl Default for MpscService {
    fn default() -> (service: Self)
        ensures
            service.wf(),
            service@ == (MpscActor {
                game: MpscGame::fresh(MPSC_FLIGHT_MS as nat),
                presenter: None,
            }),
    {
        MpscService { sim: MpscSim::new(MPSC_FLIGHT_MS), presenter: None }
    }
}

impl MpscService {
    /// The sim's invariant.
    pub closed spec fn wf(&self) -> bool {
        self.sim.wf()
    }

    fn publish(&self, cues: Vec<MpscEvent>) -> (events: Vec<MpscEvent>)
        requires
            self.wf(),
        ensures
            published(events@, Some(cues@), self@.game),
    {
        let mut events = cues;
        events.push(MpscEvent::Snapshot { state: self.sim.snapshot() });
        events
    }

    /// Whether another message fits into the counters.
    pub fn has_room(&self) -> (room: bool)
        ensures
            room == self@.game.has_room(),
    {
        self.sim.has_room()
    }

    /// Tell the actor what time it is, before it parks; it answers how long it
    /// may sleep, or `None` while only a message can move it.
    pub fn park(&mut self, now_ms: u64) -> (delay: Option<u64>)
        requires
            old(self).wf(),
            now_ms + old(self)@.game.flight_ms <= u64::MAX,
        ensures
            final(self).wf(),
            final(self)@ == (MpscActor {
                game: (MpscGame { now: now_ms as nat, ..old(self)@.game }),
                ..old(self)@
            }),
            match delay {
                None => old(self)@.game.landings.len() == 0,
                Some(ms) => {
                    &&& old(self)@.game.landings.len() > 0
                    &&& ms == if old(self)@.game.landings[0].due > now_ms {
                        old(self)@.game.landings[0].due - now_ms
                    } else {
                        0
                    }
                },
            },
    {
        self.sim.sync_now(now_ms);
        self.sim.next_delay_ms()
    }

    /// The sleep is over: land what is due and publish.
    pub fn wake(&mut self, now_ms: u64) -> (events: Vec<MpscEvent>)
        requires
            old(self).wf(),
            now_ms + old(self)@.game.flight_ms <= u64::MAX,
        ensures
            final(self).wf(),
            ({
                let (game, cues) = (MpscGame { now: now_ms as nat, ..old(self)@.game }).land();
                &&& final(self)@ == (MpscActor { game, ..old(self)@ })
                &&& published(events@, Some(cues), game)
            }),
    {
        self.sim.sync_now(now_ms);
        let cues = self.sim.poll_due();
        self.publish(cues)
    }

    /// Carry out one message: what to answer, and what to publish.
    pub fn handle(&mut self, msg: &MpscMsg, ids: &mut ConnIds) -> (out: (
        MpscReply,
        Vec<MpscEvent>,
    ))
        requires
            old(self).wf(),
            old(self)@.game.has_room(),
            old(ids).next < u64::MAX,
        ensures
            final(self).wf(),
            final(self)@ == old(self)@.step(*msg, old(ids).next).0,
            published(
                out.1@,
                old(self)@.step(*msg, old(ids).next).1,
                final(self)@.game,
            ),
            old(self)@.answers(*msg, old(ids).next, out.0),
            final(ids).next == old(ids).next + (if out.0 matches MpscReply::Cloned(Some(_)) {
                1int
            } else {
                0int
            }),
    {
        let cues = match msg {
            MpscMsg::Send { conn, ch } => self.sim.handle(
                &MpscWire::Send { conn: *conn, ch: *ch },
                *conn,
            ),
            MpscMsg::Receive => self.sim.handle(&MpscWire::Receive, 0),
            MpscMsg::AddSender { conn, owner } => self.sim.add_sender(*conn, *owner),
            MpscMsg::RemoveSender { conn } => {
                if self.presenter == Some(*conn) {
                    self.presenter = None;
                }
                self.sim.remove_sender(*conn)
            },
            MpscMsg::Clone { requester } => {
                if self.presenter == Some(*requester) {
                    let fresh = ids.next_conn();
                    let cues = self.sim.add_sender(fresh, *requester);
                    return (MpscReply::Cloned(Some(fresh)), self.publish(cues));
                }
                return (MpscReply::Cloned(None), Vec::new());
            },
            MpscMsg::Claim { conn } => {
                self.presenter = Some(*conn);
                return (MpscReply::Nothing, Vec::new());
            },
            MpscMsg::Get => {
                return (MpscReply::State(self.sim.snapshot()), Vec::new());
            },
        };
        (MpscReply::Nothing, self.publish(cues))
    }
}

/// What a command arriving on a connection asks of the actor, if its role
/// allows it.
///
/// Spectators only watch, and the presenter slot is the server's to grant. A
/// connection may send from any handle it owns; sends claiming a foreign
/// handle are ignored.
pub open spec fn request(role: Role, conn: u64, owned: Seq<u64>, wire: MpscWire) -> Option<
    MpscMsg,
> {
    if role is Spectator {
        None
    } else {
        match wire {
            MpscWire::CloneSender { .. } => Some(MpscMsg::Clone { requester: conn }),
            MpscWire::ClaimPresenter => if role is Presenter {
                Some(MpscMsg::Claim { conn })
            } else {
                None
            },
            MpscWire::Send { conn: sender, ch } => if owned.contains(sender) {
                Some(MpscMsg::Send { conn: sender, ch })
            } else {
                None
            },
            MpscWire::Receive => Some(MpscMsg::Receive),
        }
    }
}

/// One connection: its id, what it may do, and the handles it owns.
#[derive(Debug)]
pub struct MpscSocket {
    pub conn: u64,
    pub role: Role,
    /// Itself plus its clones.
    pub owned: Vec<u64>,
}

impl MpscSocket {
    /// A connection that owns itself alone.
    pub fn new(conn: u64, role: Role) -> (socket: Self)
        ensures
            socket.conn == conn,
            socket.role == role,
            socket.owned@ == seq![conn],
    {
        let mut owned: Vec<u64> = Vec::new();
        owned.push(conn);
        assert(owned@ =~= seq![conn]);
        MpscSocket { conn, role, owned }
    }

    fn owns(&self, handle: u64) -> (owns: bool)
        ensures
            owns == self.owned@.contains(handle),
    {
        let mut i: usize = 0;
        while i < self.owned.len()
            invariant
                i <= self.owned@.len(),
                forall|j: int| 0 <= j < i ==> self.owned@[j] != handle,
            decreases self.owned@.len() - i,
        {
            if self.owned[i] == handle {
                return true;
            }
            i = i + 1;
        }
        false
    }

    /// What a command from this connection asks of the actor.
    pub fn on_wire(&self, wire: &MpscWire) -> (msg: Option<MpscMsg>)
        ensures
            msg == request(self.role, self.conn, self.owned@, *wire),
    {
        if !self.role.may_play() {
            return None;
        }
        match wire {
            MpscWire::CloneSender { .. } => Some(MpscMsg::Clone { requester: self.conn }),
            MpscWire::ClaimPresenter => if self.role.may_present() {
                Some(MpscMsg::Claim { conn: self.conn })
            } else {
                None
            },
            MpscWire::Send { conn: sender, ch } => if self.owns(*sender) {
                Some(MpscMsg::Send { conn: *sender, ch: *ch })
            } else {
                None
            },
            MpscWire::Receive => Some(MpscMsg::Receive),
        }
    }

    /// The answer to a clone request: a new handle is this connection's.
    pub fn cloned(&mut self, fresh: Option<u64>)
        ensures
            final(self).conn == old(self).conn,
            final(self).role == old(self).role,
            final(self).owned@ == match fresh {
                Some(handle) => old(self).owned@.push(handle),
                None => old(self).owned@,
            },
    {
        match fresh {
            Some(handle) => self.owned.push(handle),
            None => {},
        }
    }

    /// Dropping the connection drops every handle it owns.
    pub fn close(&self) -> (msgs: Vec<MpscMsg>)
        ensures
            msgs@ == self.owned@.map_values(|conn: u64| MpscMsg::RemoveSender { conn }),
    {
        let mut msgs: Vec<MpscMsg> = Vec::new();
        let mut i: usize = 0;
        while i < self.owned.len()
            invariant
                i <= self.owned@.len(),
                msgs@ == self.owned@.take(i as int).map_values(
                    |conn: u64| MpscMsg::RemoveSender { conn },
                ),
            decreases self.owned@.len() - i,
        {
            msgs.push(MpscMsg::RemoveSender { conn: self.owned[i] });
            i = i + 1;
            assert(msgs@ =~= self.owned@.take(i as int).map_values(
                |conn: u64| MpscMsg::RemoveSender { conn },
            ));
        }
        assert(self.owned@.take(i as int) =~= self.owned@);
        msgs
    }
}

impl Client for MpscSocket {
    type Msg = MpscMsg;

    type Reply = MpscReply;

    type Event = MpscEvent;

    type Wire = MpscWire;

    open spec fn joins(&self) -> Option<MpscMsg> {
        Some(MpscMsg::AddSender { conn: self.conn, owner: self.conn })
    }

    open spec fn greeting(&self) -> Option<MpscEvent> {
        Some(MpscEvent::Hello { conn: self.conn })
    }

    open spec fn query(&self) -> MpscMsg {
        MpscMsg::Get
    }

    open spec fn state_in(&self, reply: MpscReply) -> Option<MpscEvent> {
        match reply {
            MpscReply::State(state) => Some(MpscEvent::Snapshot { state }),
            _ => None,
        }
    }

    open spec fn patient(&self) -> bool {
        true
    }

    open spec fn blank(&self, event: MpscEvent) -> bool {
        event matches MpscEvent::Snapshot { state } && MpscGame::fresh(0).shown_by(state)
    }

    open spec fn asks(&self, wire: MpscWire) -> Option<MpscMsg> {
        request(self.role, self.conn, self.owned@, wire)
    }

    open spec fn learns(&self, reply: MpscReply, after: &Self) -> bool {
        &&& after.conn == self.conn
        &&& after.role == self.role
        &&& after.owned@ == match reply {
            MpscReply::Cloned(Some(handle)) => self.owned@.push(handle),
            _ => self.owned@,
        }
    }

    open spec fn question(&self) -> Option<MpscMsg> {
        None
    }

    open spec fn farewells(&self, known: Option<MpscReply>) -> Seq<MpscMsg> {
        self.owned@.map_values(|conn: u64| MpscMsg::RemoveSender { conn })
    }

    fn join(&self) -> (msg: Option<MpscMsg>) {
        Some(MpscMsg::AddSender { conn: self.conn, owner: self.conn })
    }

    fn hello(&self) -> (event: Option<MpscEvent>) {
        Some(MpscEvent::Hello { conn: self.conn })
    }

    fn get(&self) -> (msg: MpscMsg) {
        MpscMsg::Get
    }

    fn state(&self, reply: MpscReply) -> (event: Option<MpscEvent>) {
        match reply {
            MpscReply::State(state) => Some(MpscEvent::Snapshot { state }),
            _ => None,
        }
    }

    fn stand_in(&self) -> (event: Option<MpscEvent>) {
        Some(MpscEvent::Snapshot { state: MpscSim::new(0).snapshot() })
    }

    fn ask(&self, wire: MpscWire) -> (msg: Option<MpscMsg>) {
        self.on_wire(&wire)
    }

    fn learn(&mut self, reply: MpscReply) {
        match reply {
            MpscReply::Cloned(fresh) => self.cloned(fresh),
            _ => {},
        }
    }

    fn leaving(&self) -> (msg: Option<MpscMsg>) {
        None
    }

    fn farewell(&self, known: Option<MpscReply>) -> (msgs: Vec<MpscMsg>) {
        self.close()
    }
}

/// The state once the handles in `owned` were dropped one after the other.
pub open spec fn after_leaving(actor: MpscActor, owned: Seq<u64>) -> MpscActor
    decreases owned.len(),
{
    if owned.len() == 0 {
        actor
    } else {
        after_leaving(actor, owned.drop_last()).step(
            MpscMsg::RemoveSender { conn: owned.last() },
            0,
        ).0
    }
}

proof fn lemma_without_handle(handles: Seq<Handle>, gone: u64, i: int)
    requires
        0 <= i < without_handle(handles, gone).len(),
    ensures
        without_handle(handles, gone)[i].conn != gone,
        handles.contains(without_handle(handles, gone)[i]),
    decreases handles.len(),
{
    if handles.len() > 0 {
        let rest = handles.drop_last();
        if i < without_handle(rest, gone).len() {
            lemma_without_handle(rest, gone, i);
            let j = choose|j: int| 0 <= j < rest.len() && rest[j] == without_handle(rest, gone)[i];
            assert(handles[j] == rest[j]);
        } else {
            assert(handles.last() == handles[handles.len() - 1]);
        }
    }
}

/// Leaving frees every handle: once a connection's handles were dropped none
/// of them is live, and the presenter slot is held by none of them.
pub proof fn law_leaving_frees_every_handle(actor: MpscActor, owned: Seq<u64>, i: int)
    requires
        0 <= i < owned.len(),
    ensures
        !after_leaving(actor, owned).game.has_handle(owned[i]),
        after_leaving(actor, owned).presenter != Some(owned[i]),
    decreases owned.len(),
{
    let before = after_leaving(actor, owned.drop_last());
    let last = owned.last();
    if i < owned.len() - 1 {
        law_leaving_frees_every_handle(actor, owned.drop_last(), i);
    }
    let after = after_leaving(actor, owned);
    if before.game.has_handle(last) {
        assert forall|k: int| 0 <= k < after.game.handles.len() implies after.game.handles[k].conn
            != owned[i] by {
            lemma_without_handle(before.game.handles, last, k);
            let j = choose|j: int|
                0 <= j < before.game.handles.len() && before.game.handles[j]
                    == after.game.handles[k];
            assert(before.game.handles[j].conn == after.game.handles[k].conn);
        }
    }
}

/// Spectators only watch: whatever they send, the actor hears nothing of it.
pub proof fn law_spectators_only_watch(conn: u64, owned: Seq<u64>, wire: MpscWire)
    ensures
        request(Role::Spectator, conn, owned, wire) is None,
{
}

/// The presenter slot is granted, not asked for: only a presenter's connection
/// ever claims it, and only for itself.
pub proof fn law_presenter_slot_is_granted(
    role: Role,
    conn: u64,
    owned: Seq<u64>,
    wire: MpscWire,
    claimer: u64,
)
    requires
        request(role, conn, owned, wire) == Some(MpscMsg::Claim { conn: claimer }),
    ensures
        role is Presenter,
        claimer == conn,
{
}

/// Foreign handles are untouchable: a send reaches the actor only from a
/// handle that the connection owns.
pub proof fn law_sends_come_from_owned_handles(
    role: Role,
    conn: u64,
    owned: Seq<u64>,
    wire: MpscWire,
    handle: u64,
    ch: char,
)
    requires
        request(role, conn, owned, wire) == Some(MpscMsg::Send { conn: handle, ch }),
    ensures
        owned.contains(handle),
{
}

/// What a connection may ask for is what the game carries out. A spectator is
/// not heard; everyone else receives, clones and sends from the handles it
/// owns, and a presenter claims. A send and a receive do to the game, and
/// announce, exactly what the command itself would; a claim gives the
/// connection the slot; and a clone, of whoever holds the slot, adds the fresh
/// handle as the connection's.
pub proof fn law_requests_are_carried_out(
    actor: MpscActor,
    role: Role,
    conn: u64,
    owned: Seq<u64>,
    wire: MpscWire,
    fresh: u64,
)
    ensures
        request(role, conn, owned, wire) is None <==> role is Spectator || (wire is ClaimPresenter
            && !(role is Presenter)) || (wire is Send && !owned.contains(wire->Send_conn)),
        request(role, conn, owned, wire) matches Some(msg) ==> {
            let (after, cues) = actor.step(msg, fresh);
            match wire {
                MpscWire::ClaimPresenter => {
                    &&& after.presenter == Some(conn)
                    &&& after.game == actor.game
                    &&& cues is None
                },
                MpscWire::CloneSender { .. } => {
                    &&& after.presenter == actor.presenter
                    &&& actor.presenter == Some(conn) ==> after.game == actor.game.join(
                        fresh,
                        conn,
                    ).0 && cues == Some(actor.game.join(fresh, conn).1)
                    &&& actor.presenter != Some(conn) ==> after.game == actor.game && cues is None
                },
                MpscWire::Send { .. } | MpscWire::Receive => {
                    &&& after.presenter == actor.presenter
                    &&& after.game == actor.game.step(wire, conn).0
                    &&& cues == Some(actor.game.step(wire, conn).1)
                },
            }
        },
{
}

/// Asking changes and publishes nothing; a clone is answered with the handle
/// that it added, and with nothing where the slot is somebody else's.
pub proof fn law_clone_is_answered_with_its_handle(
    actor: MpscActor,
    requester: u64,
    fresh: u64,
    reply: MpscReply,
)
    requires
        actor.answers(MpscMsg::Clone { requester }, fresh, reply),
        !actor.game.has_handle(fresh),
    ensures
        actor.step(MpscMsg::Get, fresh) == (actor, None::<Seq<MpscEvent>>),
        ({
            let after = actor.step(MpscMsg::Clone { requester }, fresh).0;
            match reply {
                MpscReply::Cloned(Some(handle)) => {
                    &&& actor.presenter == Some(requester)
                    &&& after.game.handles == actor.game.handles.push(
                        Handle { conn: handle, owner: requester },
                    )
                },
                MpscReply::Cloned(None) => actor.presenter != Some(requester) && after == actor,
                _ => false,
            }
        }),
{
}

/// A connection joins and leaves with its handle, and leaving gives up the
/// slot that the handle held and no other.
pub proof fn law_joining_and_leaving(actor: MpscActor, conn: u64, owner: u64, fresh: u64)
    ensures
        ({
            let (after, cues) = actor.step(MpscMsg::AddSender { conn, owner }, fresh);
            &&& after.game == actor.game.join(conn, owner).0
            &&& cues == Some(actor.game.join(conn, owner).1)
            &&& after.presenter == actor.presenter
        }),
        ({
            let (after, cues) = actor.step(MpscMsg::RemoveSender { conn }, fresh);
            &&& after.game == actor.game.leave(conn).0
            &&& cues == Some(actor.game.leave(conn).1)
            &&& after.presenter == if actor.presenter == Some(conn) {
                None
            } else {
                actor.presenter
            }
        }),
{
}

/// What goes out is the triggers in order and then the state, and nothing goes
/// out where nothing was called for.
pub proof fn law_snapshot_goes_out_last(
    events: Seq<MpscEvent>,
    cues: Option<Seq<MpscEvent>>,
    game: MpscGame,
)
    requires
        published(events, cues, game),
    ensures
        cues is None ==> events.len() == 0,
        cues matches Some(cues) ==> {
            &&& events.len() > 0
            &&& events.drop_last() == cues
            &&& events.last() matches MpscEvent::Snapshot { state } && state.buffer@
                == game.landed() && state.blocked_sends@ == game.blocked() && state.last_received
                == game.last_received
        },
{
    if cues is Some {
        assert(events.drop_last() =~= cues->Some_0);
    }
}

/// What the session knows of an mpsc client: it registers its own handle, is
/// greeted with its id, learns of the clones it is given, and drops every
/// handle it owns when it leaves.
pub proof fn law_client_owns_itself_and_its_clones(
    client: MpscSocket,
    after: MpscSocket,
    fresh: u64,
    wire: MpscWire,
    i: int,
)
    requires
        client.learns(MpscReply::Cloned(Some(fresh)), &after),
        0 <= i < client.owned@.len(),
    ensures
        client.joins() == Some(MpscMsg::AddSender { conn: client.conn, owner: client.conn }),
        client.greeting() == Some(MpscEvent::Hello { conn: client.conn }),
        client.query() == MpscMsg::Get,
        client.asks(wire) == request(client.role, client.conn, client.owned@, wire),
        client.question() is None,
        after.conn == client.conn && after.role == client.role,
        after.owned@ == client.owned@.push(fresh),
        client.farewells(None).len() == client.owned@.len(),
        client.farewells(None)[i] == (MpscMsg::RemoveSender { conn: client.owned@[i] }),
        client.patient(),
{
}

/// The state that an mpsc client is shown is the one in the answer; a reply
/// that is no clone teaches it nothing.
pub proof fn law_client_is_shown_the_answer(
    client: MpscSocket,
    state: MpscSnapshot,
    reply: MpscReply,
    after: MpscSocket,
)
    requires
        client.learns(reply, &after),
        !(reply is Cloned),
    ensures
        client.state_in(MpscReply::State(state)) == Some(MpscEvent::Snapshot { state }),
        after.owned@ == client.owned@,
{
}

/// No answer changes who the client is, and what stands for an answer that did
/// not come is the picture of a fresh game.
pub proof fn law_client_keeps_its_identity(
    client: MpscSocket,
    reply: MpscReply,
    after: MpscSocket,
    event: MpscEvent,
    flight_ms: nat,
)
    requires
        client.learns(reply, &after),
    ensures
        after.conn == client.conn,
        after.role == client.role,
        reply == MpscReply::Cloned(None) ==> after.owned@ == client.owned@,
        client.blank(event) <==> event is Snapshot && MpscGame::fresh(flight_ms).shown_by(
            event->state,
        ),
{
    let still = MpscGame::fresh(0);
    let fresh = MpscGame::fresh(flight_ms);
    assert(still.sender_infos() =~= fresh.sender_infos());
    assert(still.landed() =~= fresh.landed());
    assert(still.blocked() =~= fresh.blocked());
}

} // verus!

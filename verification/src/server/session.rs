//! One client's socket, from the upgrade to the farewell: which message goes to
//! the actor, which event to the client, and how the connection ends.
//!
//! A session never waits. It says what to do next, is told how that went, and
//! says what to do then.

use vstd::prelude::*;

use crate::server::plane::is_dead_peer;
use crate::server::plane::DEAD_PEER_TIMEOUT_MS;

verus! {

/// What a game knows about one of its clients.
pub trait Client: Sized {
    /// What the sockets tell the actor.
    type Msg;

    /// What the actor answers.
    type Reply;

    /// What the actor publishes.
    type Event;

    /// What a client sends.
    type Wire;

    /// The message that registers the client with the actor.
    spec fn joins(&self) -> Option<Self::Msg>;

    /// The event that greets the client.
    spec fn greeting(&self) -> Option<Self::Event>;

    /// The message that asks the actor for its state.
    spec fn query(&self) -> Self::Msg;

    /// The event that carries the state in a reply.
    spec fn state_in(&self, reply: Self::Reply) -> Option<Self::Event>;

    /// Whether the session goes on without the actor's state: it greets the
    /// client with that of an empty game if the answer is lost, and listens on
    /// if the client cannot be made whole.
    spec fn patient(&self) -> bool;

    /// Whether the event carries the state of an empty game.
    spec fn blank(&self, event: Self::Event) -> bool;

    /// What a command asks of the actor, if the client may ask it.
    spec fn asks(&self, wire: Self::Wire) -> Option<Self::Msg>;

    /// The reply to a command leads to `after`.
    spec fn learns(&self, reply: Self::Reply, after: &Self) -> bool;

    /// What has to be asked before the client can leave.
    spec fn question(&self) -> Option<Self::Msg>;

    /// What the actor is told when the client leaves, given the answer to that
    /// question.
    spec fn farewells(&self, known: Option<Self::Reply>) -> Seq<Self::Msg>;

    /// The message that registers the client with the actor.
    fn join(&self) -> (msg: Option<Self::Msg>)
        ensures
            msg == self.joins(),
    ;

    /// The event that greets the client.
    fn hello(&self) -> (event: Option<Self::Event>)
        ensures
            event == self.greeting(),
    ;

    /// The message that asks the actor for its state.
    fn get(&self) -> (msg: Self::Msg)
        ensures
            msg == self.query(),
    ;

    /// The event that carries the state in a reply.
    fn state(&self, reply: Self::Reply) -> (event: Option<Self::Event>)
        ensures
            event == self.state_in(reply),
    ;

    /// The event that carries the state of an empty game, if the session is to
    /// go on without the actor's.
    fn stand_in(&self) -> (event: Option<Self::Event>)
        ensures
            event is Some == self.patient(),
            event matches Some(event) ==> self.blank(event),
    ;

    /// What a command asks of the actor, if the client may ask it.
    fn ask(&self, wire: Self::Wire) -> (msg: Option<Self::Msg>)
        ensures
            msg == self.asks(wire),
    ;

    /// Take note of the reply to a command.
    fn learn(&mut self, reply: Self::Reply)
        ensures
            old(self).learns(reply, final(self)),
    ;

    /// What has to be asked before the client can leave.
    fn leaving(&self) -> (msg: Option<Self::Msg>)
        ensures
            msg == self.question(),
    ;

    /// What the actor is told when the client leaves.
    fn farewell(&self, known: Option<Self::Reply>) -> (msgs: Vec<Self::Msg>)
        ensures
            msgs@ == self.farewells(known),
    ;
}

/// What a session is told.
#[derive(Debug)]
pub enum SocketEvent<R, E, W> {
    /// The actor answered.
    Answered { reply: R },
    /// The actor took the message, but its answer was lost.
    Unanswered,
    /// The actor no longer takes messages.
    Unheard,
    /// The event went out to the client, or did not.
    Sent { ok: bool },
    /// The client was told that the actor is coming back.
    Closed,
    /// A text frame. The command it holds; `None` for a keep-alive and for one
    /// that cannot be decoded.
    Text { wire: Option<W> },
    /// A frame that is no text, a broken connection, or its end.
    Gone,
    /// The client has been silent for so long.
    Quiet { silent_ms: u64 },
    /// The actor published an event.
    Published { event: E },
    /// The socket fell behind the events and missed some.
    Lagged,
    /// The event plane closed: the actor is being restarted.
    ActorGone,
}

/// What a session does next.
#[derive(Debug)]
pub enum SocketAction<M, E> {
    /// Hand the message to the actor and wait for its answer.
    Ask { msg: M },
    /// Hand the event to the client.
    Send { event: E },
    /// Wait until something reaches the socket.
    Listen,
    /// Tell the client that the actor is coming back.
    CloseRestarting,
    /// There is no actor to talk to: hand the ticket back, tell the client that
    /// the actor is coming back, and stop.
    Refuse,
    /// Hand the ticket back and stop.
    Depart,
    /// Nothing is left to do.
    Stop,
}

/// How far a session has come.
#[derive(Debug)]
pub enum Phase<M, E> {
    /// The client is being registered.
    Joining,
    /// The actor was asked for the state to start from.
    Fetching,
    /// The greeting is going out; the state goes out after it, unless it
    /// already does.
    Greeting { state: Option<E> },
    /// Listening.
    Live,
    /// A command is with the actor.
    Telling,
    /// The actor was asked for a snapshot that makes the client whole.
    Resyncing,
    /// The snapshot that makes the client whole is going out to it.
    Mending,
    /// An event is going out to the client.
    Relaying,
    /// The client is being told that the actor is coming back.
    Closing,
    /// The actor was asked what the client owns.
    Asking,
    /// The farewell is with the actor; these messages are left of it.
    Parting { rest: Vec<M> },
    Over,
}

/// One client's socket.
pub struct Session<C: Client> {
    pub client: C,
    pub phase: Phase<C::Msg, C::Event>,
}

/// What a session is told, for a given kind of client.
pub type Told<C> = SocketEvent<<C as Client>::Reply, <C as Client>::Event, <C as Client>::Wire>;

/// What a session does, for a given kind of client.
pub type Deed<C> = SocketAction<<C as Client>::Msg, <C as Client>::Event>;

/// The session goes on to say the farewell `msgs`, or departs once it is said.
pub open spec fn parts<C: Client>(
    client: C,
    msgs: Seq<C::Msg>,
    after: Session<C>,
    action: Deed<C>,
) -> bool {
    &&& after.client == client
    &&& if msgs.len() == 0 {
        after.phase is Over && action is Depart
    } else {
        &&& action == (SocketAction::<C::Msg, C::Event>::Ask { msg: msgs[0] })
        &&& after.phase matches Phase::Parting { rest } && rest@ == msgs.drop_first()
    }
}

/// The session begins to leave.
pub open spec fn leaves<C: Client>(client: C, after: Session<C>, action: Deed<C>) -> bool {
    match client.question() {
        Some(msg) => {
            &&& after.client == client
            &&& after.phase is Asking
            &&& action == (SocketAction::<C::Msg, C::Event>::Ask { msg })
        },
        None => parts(client, client.farewells(None), after, action),
    }
}

/// The session goes on to `phase`, with nothing learnt about its client.
pub open spec fn goes_on<C: Client>(
    client: C,
    phase: Phase<C::Msg, C::Event>,
    does: Deed<C>,
    after: Session<C>,
    action: Deed<C>,
) -> bool {
    &&& after.client == client
    &&& after.phase == phase
    &&& action == does
}

/// The session asks for the state to start from.
pub open spec fn fetches<C: Client>(client: C, after: Session<C>, action: Deed<C>) -> bool {
    goes_on(client, Phase::Fetching, SocketAction::Ask { msg: client.query() }, after, action)
}

/// The session turns its client away.
pub open spec fn refuses<C: Client>(client: C, after: Session<C>, action: Deed<C>) -> bool {
    goes_on(client, Phase::Over, SocketAction::Refuse, after, action)
}

/// The session listens.
pub open spec fn listens<C: Client>(client: C, after: Session<C>, action: Deed<C>) -> bool {
    goes_on(client, Phase::Live, SocketAction::Listen, after, action)
}

/// The session hands an event to its client.
pub open spec fn relays<C: Client>(
    client: C,
    event: C::Event,
    after: Session<C>,
    action: Deed<C>,
) -> bool {
    goes_on(client, Phase::Relaying, SocketAction::Send { event }, after, action)
}

/// The session tells its client that the actor is coming back.
pub open spec fn closes<C: Client>(client: C, after: Session<C>, action: Deed<C>) -> bool {
    goes_on(client, Phase::Closing, SocketAction::CloseRestarting, after, action)
}

/// The session greets its client, and shows it the state.
pub open spec fn greets<C: Client>(
    client: C,
    state: C::Event,
    after: Session<C>,
    action: Deed<C>,
) -> bool {
    match client.greeting() {
        Some(event) => goes_on(
            client,
            Phase::Greeting { state: Some(state) },
            SocketAction::Send { event },
            after,
            action,
        ),
        None => goes_on(
            client,
            Phase::Greeting { state: None },
            SocketAction::Send { event: state },
            after,
            action,
        ),
    }
}

/// The session could not find out the state to start from: a patient one
/// shows its client that of an empty game.
pub open spec fn greets_unknowing<C: Client>(
    client: C,
    after: Session<C>,
    action: Deed<C>,
) -> bool {
    if client.patient() {
        exists|state: C::Event| #[trigger]
            client.blank(state) && greets(client, state, after, action)
    } else {
        refuses(client, after, action)
    }
}

/// The session could not make its client whole: a patient one listens on.
pub open spec fn stays_behind<C: Client>(client: C, after: Session<C>, action: Deed<C>) -> bool {
    if client.patient() {
        listens(client, after, action)
    } else {
        leaves(client, after, action)
    }
}

/// What a listening session does about what reached its socket.
pub open spec fn reacts<C: Client>(
    client: C,
    event: Told<C>,
    after: Session<C>,
    action: Deed<C>,
) -> bool {
    match event {
        SocketEvent::Text { wire: Some(wire) } => match client.asks(wire) {
            Some(msg) => goes_on(
                client,
                Phase::Telling,
                SocketAction::Ask { msg },
                after,
                action,
            ),
            None => listens(client, after, action),
        },
        SocketEvent::Gone => leaves(client, after, action),
        SocketEvent::Quiet { silent_ms } => if silent_ms > DEAD_PEER_TIMEOUT_MS {
            leaves(client, after, action)
        } else {
            listens(client, after, action)
        },
        SocketEvent::Published { event } => relays(client, event, after, action),
        SocketEvent::Lagged => goes_on(
            client,
            Phase::Resyncing,
            SocketAction::Ask { msg: client.query() },
            after,
            action,
        ),
        SocketEvent::ActorGone => closes(client, after, action),
        _ => listens(client, after, action),
    }
}

/// Being told `event`, a session becomes `after` and does `action`.
pub open spec fn stepped<C: Client>(
    before: Session<C>,
    event: Told<C>,
    after: Session<C>,
    action: Deed<C>,
) -> bool {
    let client = before.client;
    match before.phase {
        Phase::Joining => if event is Answered || event is Unanswered {
            fetches(client, after, action)
        } else {
            refuses(client, after, action)
        },
        Phase::Fetching => match event {
            SocketEvent::Answered { reply } => match client.state_in(reply) {
                Some(state) => greets(client, state, after, action),
                None => greets_unknowing(client, after, action),
            },
            SocketEvent::Unanswered => greets_unknowing(client, after, action),
            _ => refuses(client, after, action),
        },
        Phase::Greeting { state } => if event matches SocketEvent::Sent { ok: true } {
            match state {
                Some(state) => goes_on(
                    client,
                    Phase::Greeting { state: None },
                    SocketAction::Send { event: state },
                    after,
                    action,
                ),
                None => listens(client, after, action),
            }
        } else {
            leaves(client, after, action)
        },
        Phase::Live => reacts(client, event, after, action),
        Phase::Telling => match event {
            SocketEvent::Answered { reply } => {
                &&& client.learns(reply, &after.client)
                &&& after.phase is Live
                &&& action is Listen
            },
            SocketEvent::Unanswered => listens(client, after, action),
            _ => closes(client, after, action),
        },
        Phase::Resyncing => match event {
            SocketEvent::Answered { reply } => match client.state_in(reply) {
                Some(state) => goes_on(
                    client,
                    Phase::Mending,
                    SocketAction::Send { event: state },
                    after,
                    action,
                ),
                None => stays_behind(client, after, action),
            },
            _ => stays_behind(client, after, action),
        },
        Phase::Mending => if event matches SocketEvent::Sent { ok: true } {
            listens(client, after, action)
        } else {
            stays_behind(client, after, action)
        },
        Phase::Relaying => if event matches SocketEvent::Sent { ok: true } {
            listens(client, after, action)
        } else {
            leaves(client, after, action)
        },
        Phase::Closing => leaves(client, after, action),
        Phase::Asking => match event {
            SocketEvent::Answered { reply } => parts(
                client,
                client.farewells(Some(reply)),
                after,
                action,
            ),
            _ => parts(client, client.farewells(None), after, action),
        },
        Phase::Parting { rest } => parts(client, rest@, after, action),
        Phase::Over => goes_on(client, Phase::Over, SocketAction::Stop, after, action),
    }
}

impl<C: Client> Session<C> {
    /// A client connects. Without an actor to talk to it is turned away;
    /// otherwise it is registered before it is shown the state, so the snapshot
    /// it receives already contains it.
    pub fn open(client: C, live: bool) -> (opened: (Self, Deed<C>))
        ensures
            !live ==> refuses(client, opened.0, opened.1),
            live ==> match client.joins() {
                Some(msg) => goes_on(
                    client,
                    Phase::Joining,
                    SocketAction::Ask { msg },
                    opened.0,
                    opened.1,
                ),
                None => fetches(client, opened.0, opened.1),
            },
    {
        if !live {
            return Self::refuse(client);
        }
        match client.join() {
            Some(msg) => (Session { client, phase: Phase::Joining }, SocketAction::Ask { msg }),
            None => Self::fetch(client),
        }
    }

    fn refuse(client: C) -> (out: (Self, Deed<C>))
        ensures
            refuses(client, out.0, out.1),
    {
        (Session { client, phase: Phase::Over }, SocketAction::Refuse)
    }

    fn fetch(client: C) -> (out: (Self, Deed<C>))
        ensures
            fetches(client, out.0, out.1),
    {
        let msg = client.get();
        (Session { client, phase: Phase::Fetching }, SocketAction::Ask { msg })
    }

    fn listen(client: C) -> (out: (Self, Deed<C>))
        ensures
            listens(client, out.0, out.1),
    {
        (Session { client, phase: Phase::Live }, SocketAction::Listen)
    }

    fn relay(client: C, event: C::Event) -> (out: (Self, Deed<C>))
        ensures
            relays(client, event, out.0, out.1),
    {
        (Session { client, phase: Phase::Relaying }, SocketAction::Send { event })
    }

    fn close(client: C) -> (out: (Self, Deed<C>))
        ensures
            closes(client, out.0, out.1),
    {
        (Session { client, phase: Phase::Closing }, SocketAction::CloseRestarting)
    }

    fn greet(client: C, state: C::Event) -> (out: (Self, Deed<C>))
        ensures
            greets(client, state, out.0, out.1),
    {
        match client.hello() {
            Some(event) => (
                Session { client, phase: Phase::Greeting { state: Some(state) } },
                SocketAction::Send { event },
            ),
            None => (
                Session { client, phase: Phase::Greeting { state: None } },
                SocketAction::Send { event: state },
            ),
        }
    }

    fn greet_unknowing(client: C) -> (out: (Self, Deed<C>))
        ensures
            greets_unknowing(client, out.0, out.1),
    {
        match client.stand_in() {
            Some(state) => Self::greet(client, state),
            None => Self::refuse(client),
        }
    }

    fn stay_behind(client: C) -> (out: (Self, Deed<C>))
        ensures
            stays_behind(client, out.0, out.1),
    {
        match client.stand_in() {
            Some(_) => Self::listen(client),
            None => Self::leave(client),
        }
    }

    fn part(client: C, msgs: Vec<C::Msg>) -> (out: (Self, Deed<C>))
        ensures
            parts(client, msgs@, out.0, out.1),
    {
        let mut rest = msgs;
        if rest.len() == 0 {
            return (Session { client, phase: Phase::Over }, SocketAction::Depart);
        }
        let msg = rest.remove(0);
        assert(rest@ =~= msgs@.drop_first());
        (Session { client, phase: Phase::Parting { rest } }, SocketAction::Ask { msg })
    }

    fn leave(client: C) -> (out: (Self, Deed<C>))
        ensures
            leaves(client, out.0, out.1),
    {
        match client.leaving() {
            Some(msg) => (Session { client, phase: Phase::Asking }, SocketAction::Ask { msg }),
            None => {
                let msgs = client.farewell(None);
                Self::part(client, msgs)
            },
        }
    }

    fn react(client: C, event: Told<C>) -> (out: (Self, Deed<C>))
        ensures
            reacts(client, event, out.0, out.1),
    {
        match event {
            SocketEvent::Text { wire } => match wire {
                Some(wire) => match client.ask(wire) {
                    Some(msg) => (
                        Session { client, phase: Phase::Telling },
                        SocketAction::Ask { msg },
                    ),
                    None => Self::listen(client),
                },
                None => Self::listen(client),
            },
            SocketEvent::Gone => Self::leave(client),
            SocketEvent::Quiet { silent_ms } => if is_dead_peer(silent_ms) {
                Self::leave(client)
            } else {
                Self::listen(client)
            },
            SocketEvent::Published { event } => Self::relay(client, event),
            SocketEvent::Lagged => {
                let msg = client.get();
                (Session { client, phase: Phase::Resyncing }, SocketAction::Ask { msg })
            },
            SocketEvent::ActorGone => Self::close(client),
            _ => Self::listen(client),
        }
    }

    /// What the session does next, being told how its last action went or what
    /// reached the socket while it listened.
    pub fn step(self, event: Told<C>) -> (out: (Self, Deed<C>))
        ensures
            stepped(self, event, out.0, out.1),
    {
        let mut client = self.client;
        match self.phase {
            Phase::Joining => match event {
                SocketEvent::Answered { .. } | SocketEvent::Unanswered => Self::fetch(client),
                _ => Self::refuse(client),
            },
            Phase::Fetching => match event {
                SocketEvent::Answered { reply } => match client.state(reply) {
                    Some(state) => Self::greet(client, state),
                    None => Self::greet_unknowing(client),
                },
                SocketEvent::Unanswered => Self::greet_unknowing(client),
                _ => Self::refuse(client),
            },
            Phase::Greeting { state } => match event {
                SocketEvent::Sent { ok: true } => match state {
                    Some(state) => (
                        Session { client, phase: Phase::Greeting { state: None } },
                        SocketAction::Send { event: state },
                    ),
                    None => Self::listen(client),
                },
                _ => Self::leave(client),
            },
            Phase::Live => Self::react(client, event),
            Phase::Telling => match event {
                SocketEvent::Answered { reply } => {
                    client.learn(reply);
                    Self::listen(client)
                },
                SocketEvent::Unanswered => Self::listen(client),
                _ => Self::close(client),
            },
            Phase::Resyncing => match event {
                SocketEvent::Answered { reply } => match client.state(reply) {
                    Some(state) => (
                        Session { client, phase: Phase::Mending },
                        SocketAction::Send { event: state },
                    ),
                    None => Self::stay_behind(client),
                },
                _ => Self::stay_behind(client),
            },
            Phase::Mending => match event {
                SocketEvent::Sent { ok: true } => Self::listen(client),
                _ => Self::stay_behind(client),
            },
            Phase::Relaying => match event {
                SocketEvent::Sent { ok: true } => Self::listen(client),
                _ => Self::leave(client),
            },
            Phase::Closing => Self::leave(client),
            Phase::Asking => {
                let msgs = match event {
                    SocketEvent::Answered { reply } => client.farewell(Some(reply)),
                    _ => client.farewell(None),
                };
                Self::part(client, msgs)
            },
            Phase::Parting { rest } => Self::part(client, rest),
            Phase::Over => (Session { client, phase: Phase::Over }, SocketAction::Stop),
        }
    }
}

/// A ticket is handed back once: a session hands it back exactly when it ends,
/// and a session that has ended does nothing any more.
pub proof fn law_ticket_is_handed_back_once<C: Client>(
    before: Session<C>,
    event: Told<C>,
    after: Session<C>,
    action: Deed<C>,
)
    requires
        stepped(before, event, after, action),
    ensures
        action is Refuse || action is Depart <==> !(before.phase is Over) && after.phase is Over,
        before.phase is Over ==> after.phase is Over && action is Stop,
{
}

/// Nobody slips away: a session that got as far as greeting its client ends
/// only once it has nothing left to tell the actor about the client's leaving.
pub proof fn law_no_exit_without_farewell<C: Client>(
    before: Session<C>,
    event: Told<C>,
    after: Session<C>,
    action: Deed<C>,
)
    requires
        stepped(before, event, after, action),
        after.phase is Over,
        !(before.phase is Joining),
        !(before.phase is Fetching),
        !(before.phase is Over),
    ensures
        match before.phase {
            Phase::Parting { rest } => rest@.len() == 0,
            Phase::Asking => exists|known: Option<C::Reply>|
                (#[trigger] before.client.farewells(known)).len() == 0,
            _ => before.client.question() is None && before.client.farewells(None).len() == 0,
        },
{
}

/// The farewell is said in full and in order: whatever the session is told
/// meanwhile, it hands the actor one message after the other, then departs.
pub proof fn law_farewell_is_said_in_full<C: Client>(
    sessions: Seq<Session<C>>,
    events: Seq<Told<C>>,
    actions: Seq<Deed<C>>,
    msgs: Seq<C::Msg>,
)
    requires
        sessions.len() == msgs.len() + 2,
        events.len() == msgs.len() + 1,
        actions.len() == msgs.len() + 1,
        sessions[0].phase matches Phase::Parting { rest } && rest@ == msgs,
        forall|i: int|
            0 <= i < events.len() ==> stepped(
                sessions[i],
                #[trigger] events[i],
                sessions[i + 1],
                actions[i],
            ),
    ensures
        forall|i: int|
            0 <= i < msgs.len() ==> #[trigger] actions[i] == (SocketAction::<
                C::Msg,
                C::Event,
            >::Ask { msg: msgs[i] }),
        actions.last() is Depart,
        sessions.last().phase is Over,
    decreases msgs.len(),
{
    assert(stepped(sessions[0], events[0], sessions[1], actions[0]));
    if msgs.len() > 0 {
        let later = actions.drop_first();
        assert forall|i: int| 0 <= i < events.drop_first().len() implies stepped(
            sessions.drop_first()[i],
            #[trigger] events.drop_first()[i],
            sessions.drop_first()[i + 1],
            later[i],
        ) by {
            assert(stepped(sessions[i + 1], events[i + 1], sessions[i + 2], actions[i + 1]));
        }
        law_farewell_is_said_in_full(
            sessions.drop_first(),
            events.drop_first(),
            later,
            msgs.drop_first(),
        );
        assert forall|i: int| 0 <= i < msgs.len() implies #[trigger] actions[i] == (SocketAction::<
            C::Msg,
            C::Event,
        >::Ask { msg: msgs[i] }) by {
            if i > 0 {
                assert(later[i - 1] == actions[i]);
            }
        }
        assert(later.last() == actions.last());
        assert(sessions.drop_first().last() == sessions.last());
    }
}

/// The client moves the actor only by what it may ask: a message that a
/// listening session hands to the actor on a text frame is what the frame's
/// command asks.
pub proof fn law_only_allowed_commands_pass<C: Client>(
    before: Session<C>,
    wire: Option<C::Wire>,
    after: Session<C>,
    action: Deed<C>,
    msg: C::Msg,
)
    requires
        before.phase is Live,
        stepped(before, SocketEvent::Text { wire }, after, action),
        action == (SocketAction::<C::Msg, C::Event>::Ask { msg }),
    ensures
        wire is Some,
        before.client.asks(wire->0) == Some(msg),
{
}

/// A client that comes is registered before it is shown the state, and shown
/// the state after it is greeted; only then is it listened to. A greeting or a
/// state that cannot be delivered ends that.
pub proof fn law_client_is_registered_greeted_and_shown<C: Client>(
    before: Session<C>,
    event: Told<C>,
    after: Session<C>,
    action: Deed<C>,
)
    requires
        stepped(before, event, after, action),
    ensures
        before.phase is Joining && (event is Answered || event is Unanswered) ==> {
            &&& after.phase is Fetching
            &&& after.client == before.client
            &&& action == (SocketAction::<C::Msg, C::Event>::Ask { msg: before.client.query() })
        },
        before.phase is Joining && !(event is Answered || event is Unanswered) ==> action is Refuse,
        before.phase is Fetching && event is Answered && before.client.state_in(
            event->reply,
        ) is Some ==> {
            let state = before.client.state_in(event->reply)->Some_0;
            &&& after.client == before.client
            &&& match before.client.greeting() {
                Some(hello) => {
                    &&& action == (SocketAction::<C::Msg, C::Event>::Send { event: hello })
                    &&& after.phase == (Phase::<C::Msg, C::Event>::Greeting { state: Some(state) })
                },
                None => {
                    &&& action == (SocketAction::<C::Msg, C::Event>::Send { event: state })
                    &&& after.phase == (Phase::<C::Msg, C::Event>::Greeting { state: None })
                },
            }
        },
        before.phase is Fetching && event is Unheard ==> action is Refuse,
        before.phase is Fetching && event is Unanswered && !before.client.patient()
            ==> action is Refuse,
        before.phase is Fetching && event is Unanswered && before.client.patient()
            ==> action is Send && after.phase is Greeting,
        before.phase is Greeting && event == (SocketEvent::<C::Reply, C::Event, C::Wire>::Sent {
            ok: true,
        }) ==> match before.phase->Greeting_state {
            Some(state) => {
                &&& action == (SocketAction::<C::Msg, C::Event>::Send { event: state })
                &&& after.phase == (Phase::<C::Msg, C::Event>::Greeting { state: None })
            },
            None => action is Listen && after.phase is Live,
        },
        before.phase is Greeting && event == (SocketEvent::<C::Reply, C::Event, C::Wire>::Sent {
            ok: false,
        }) ==> !(action is Listen) && !(action is Send),
{
}

/// A command that the client may give is handed to the actor as it is, and
/// what the actor answers is remembered; any other is passed over. Where the
/// actor takes no messages any more, the client is told that it is coming back.
pub proof fn law_commands_go_to_the_actor<C: Client>(
    before: Session<C>,
    event: Told<C>,
    after: Session<C>,
    action: Deed<C>,
)
    requires
        stepped(before, event, after, action),
    ensures
        before.phase is Live && event is Text && event->wire is Some ==> {
            let asked = before.client.asks(event->wire->Some_0);
            &&& after.client == before.client
            &&& asked is Some ==> action == (SocketAction::<C::Msg, C::Event>::Ask {
                msg: asked->Some_0,
            }) && after.phase is Telling
            &&& asked is None ==> action is Listen && after.phase is Live
        },
        before.phase is Live && event is Text && event->wire is None ==> action is Listen
            && after.phase is Live && after.client == before.client,
        before.phase is Telling && event is Answered ==> before.client.learns(
            event->reply,
            &after.client,
        ) && action is Listen && after.phase is Live,
        before.phase is Telling && event is Unanswered ==> after.client == before.client
            && action is Listen && after.phase is Live,
        before.phase is Telling && event is Unheard ==> after.client == before.client
            && action is CloseRestarting && after.phase is Closing,
{
}

/// What the actor publishes is handed to the client as it is, and has to
/// arrive. A client that missed something is given the whole state, which
/// need not arrive if the session is patient. When the actor goes, the client
/// is told that it is coming back, and then it leaves.
pub proof fn law_events_go_to_the_client<C: Client>(
    before: Session<C>,
    event: Told<C>,
    after: Session<C>,
    action: Deed<C>,
)
    requires
        stepped(before, event, after, action),
    ensures
        before.phase is Live && event is Published ==> after.client == before.client
            && after.phase is Relaying && action == (SocketAction::<C::Msg, C::Event>::Send {
            event: event->event,
        }),
        before.phase is Live && event is Lagged ==> after.client == before.client
            && after.phase is Resyncing && action == (SocketAction::<C::Msg, C::Event>::Ask {
            msg: before.client.query(),
        }),
        before.phase is Live && event is ActorGone ==> action is CloseRestarting
            && after.phase is Closing && after.client == before.client,
        before.phase is Resyncing && event is Answered && before.client.state_in(
            event->reply,
        ) is Some ==> after.phase is Mending && action == (SocketAction::<C::Msg, C::Event>::Send {
            event: before.client.state_in(event->reply)->Some_0,
        }),
        before.phase is Resyncing && (event is Unanswered || event is Unheard) ==> (action is Listen
            <==> before.client.patient()),
        (before.phase is Relaying || before.phase is Mending) && event == (SocketEvent::<
            C::Reply,
            C::Event,
            C::Wire,
        >::Sent { ok: true }) ==> action is Listen && after.phase is Live,
        before.phase is Relaying && event == (SocketEvent::<C::Reply, C::Event, C::Wire>::Sent {
            ok: false,
        }) ==> !(action is Listen),
        before.phase is Mending && event == (SocketEvent::<C::Reply, C::Event, C::Wire>::Sent {
            ok: false,
        }) ==> (action is Listen <==> before.client.patient()),
{
}

/// A client leaves when its connection ends or has been silent for longer than
/// twenty-five seconds, and for nothing less. Before it does, the actor is
/// asked what it owns, if that has to be asked, and told its farewell.
pub proof fn law_silent_or_broken_clients_leave<C: Client>(
    before: Session<C>,
    event: Told<C>,
    after: Session<C>,
    action: Deed<C>,
)
    requires
        stepped(before, event, after, action),
        before.phase is Live || before.phase is Closing,
    ensures
        before.phase is Live && event is Quiet && event->silent_ms <= 25 * 1000 ==> action is Listen
            && after.phase is Live && after.client == before.client,
        before.phase is Closing || event is Gone || (event is Quiet && event->silent_ms > 25 * 1000)
            ==> {
            &&& after.client == before.client
            &&& match before.client.question() {
                Some(msg) => {
                    &&& action == (SocketAction::<C::Msg, C::Event>::Ask { msg })
                    &&& after.phase is Asking
                },
                None => {
                    let msgs = before.client.farewells(None);
                    &&& msgs.len() == 0 ==> action is Depart && after.phase is Over
                    &&& msgs.len() > 0 ==> action == (SocketAction::<C::Msg, C::Event>::Ask {
                        msg: msgs[0],
                    }) && after.phase is Parting && after.phase->rest@ == msgs.drop_first()
                },
            }
        },
{
}

/// What was asked before leaving decides the farewell: it is said to the end
/// as the answer has it, or without one.
pub proof fn law_answer_decides_the_farewell<C: Client>(
    before: Session<C>,
    event: Told<C>,
    after: Session<C>,
    action: Deed<C>,
)
    requires
        stepped(before, event, after, action),
        before.phase is Asking,
    ensures
        ({
            let msgs = before.client.farewells(
                if event is Answered {
                    Some(event->reply)
                } else {
                    None
                },
            );
            &&& msgs.len() == 0 ==> action is Depart && after.phase is Over
            &&& msgs.len() > 0 ==> action == (SocketAction::<C::Msg, C::Event>::Ask {
                msg: msgs[0],
            }) && after.phase is Parting && after.phase->rest@ == msgs.drop_first()
        }),
{
}

} // verus!

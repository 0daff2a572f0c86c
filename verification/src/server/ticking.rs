//! One actor body for every clock-driven game.
//!
//! The timer, select and loop-select actors differ only in which sim they hold
//! and which wire they speak. Everything else (keeping the clock, publishing a
//! snapshot after every change, answering a late joiner) is identical, so it
//! is written once here and the three games supply a [`TickingGame`].

use core::marker::PhantomData;

use vstd::prelude::*;

use crate::clock::{Ticking, MINUTE_MS};
use crate::protocol::{
    LoopSelectEvent, LoopSelectWire, Role, SelectEvent, SelectWire, TimerEvent, TimerWire,
};
use crate::server::session::Client;
use crate::sim::select::{LoopSelectSim, LoopState, SelectSim, SelectState};
use crate::sim::timer::{TimerSim, TimerState};

verus! {

/// What a clock-driven game supplies to be run by [`TickingService`].
pub trait TickingGame: Ticking {
    /// The command a client sends.
    type Wire;

    /// A sim as it is before anything happened.
    spec fn is_fresh(&self, epoch_offset_ms: u64) -> bool;

    /// A command leads to `after` and yields `events`.
    spec fn handled(&self, wire: Self::Wire, after: &Self, events: Seq<Self::Event>) -> bool;

    /// Whether `event` carries the whole state.
    spec fn shown_by(&self, event: Self::Event) -> bool;

    /// The game's name, as it appears in logs.
    fn name() -> (name: &'static str);

    /// Build a fresh sim. `epoch_offset_ms` aligns the sim's clock with the
    /// wall, so every peer draws the same seconds dial.
    fn fresh(epoch_offset_ms: u64) -> (sim: Self)
        requires
            epoch_offset_ms < MINUTE_MS,
        ensures
            sim.valid(),
            sim.is_fresh(epoch_offset_ms),
            sim.room() == u64::MAX,
    ;

    /// Whether two more completions can be recorded: one that is due, and one
    /// that a command brings about.
    fn has_room(&self) -> (room: bool)
        ensures
            room == (self.room() >= 2),
    ;

    /// Apply a client's command.
    fn handle(&mut self, wire: &Self::Wire) -> (events: Vec<Self::Event>)
        requires
            old(self).valid(),
            old(self).room() > 0,
        ensures
            final(self).valid(),
            old(self).handled(*wire, final(self), events@),
    ;

    /// The event carrying the whole state, sent to a joiner and after every
    /// change.
    fn snapshot_event(&self) -> (event: Self::Event)
        requires
            self.valid(),
        ensures
            self.shown_by(event),
    ;
}

impl TickingGame for TimerSim {
    type Wire = TimerWire;

    open spec fn is_fresh(&self, epoch_offset_ms: u64) -> bool {
        self@ == TimerState::fresh(epoch_offset_ms)
    }

    open spec fn handled(&self, wire: TimerWire, after: &Self, events: Seq<TimerEvent>) -> bool {
        (after@, events) == self@.step(wire)
    }

    open spec fn shown_by(&self, event: TimerEvent) -> bool {
        event == (TimerEvent::Snapshot { state: self@.snapshot() })
    }

    fn name() -> (name: &'static str)
        ensures
            name@ == "timer"@,
    {
        "timer"
    }

    fn fresh(epoch_offset_ms: u64) -> (sim: Self) {
        TimerSim::new(epoch_offset_ms)
    }

    fn has_room(&self) -> (room: bool) {
        true
    }

    fn handle(&mut self, wire: &TimerWire) -> (events: Vec<TimerEvent>) {
        TimerSim::handle(self, wire)
    }

    fn snapshot_event(&self) -> (event: TimerEvent) {
        TimerEvent::Snapshot { state: self.snapshot() }
    }
}

impl TickingGame for SelectSim {
    type Wire = SelectWire;

    open spec fn is_fresh(&self, epoch_offset_ms: u64) -> bool {
        self@ == SelectState::fresh(epoch_offset_ms)
    }

    open spec fn handled(&self, wire: SelectWire, after: &Self, events: Seq<SelectEvent>) -> bool {
        (after@, events) == self@.step(wire)
    }

    open spec fn shown_by(&self, event: SelectEvent) -> bool {
        event == (SelectEvent::Snapshot { state: self@.snapshot() })
    }

    fn name() -> (name: &'static str)
        ensures
            name@ == "select"@,
    {
        "select"
    }

    fn fresh(epoch_offset_ms: u64) -> (sim: Self) {
        SelectSim::new(epoch_offset_ms)
    }

    fn has_room(&self) -> (room: bool) {
        true
    }

    fn handle(&mut self, wire: &SelectWire) -> (events: Vec<SelectEvent>) {
        SelectSim::handle(self, wire)
    }

    fn snapshot_event(&self) -> (event: SelectEvent) {
        SelectEvent::Snapshot { state: self.snapshot() }
    }
}

impl TickingGame for LoopSelectSim {
    type Wire = LoopSelectWire;

    open spec fn is_fresh(&self, epoch_offset_ms: u64) -> bool {
        self@ == LoopState::fresh(epoch_offset_ms)
    }

    open spec fn handled(
        &self,
        wire: LoopSelectWire,
        after: &Self,
        events: Seq<LoopSelectEvent>,
    ) -> bool {
        (after@, events) == self@.step(wire)
    }

    open spec fn shown_by(&self, event: LoopSelectEvent) -> bool {
        event matches LoopSelectEvent::Snapshot { state } && self@.shown_by(state)
    }

    fn name() -> (name: &'static str)
        ensures
            name@ == "loop-select"@,
    {
        "loop-select"
    }

    fn fresh(epoch_offset_ms: u64) -> (sim: Self) {
        LoopSelectSim::new(epoch_offset_ms)
    }

    fn has_room(&self) -> (room: bool) {
        self.rounds() < u64::MAX - 1
    }

    fn handle(&mut self, wire: &LoopSelectWire) -> (events: Vec<LoopSelectEvent>) {
        LoopSelectSim::handle(self, wire)
    }

    fn snapshot_event(&self) -> (event: LoopSelectEvent) {
        LoopSelectEvent::Snapshot { state: self.snapshot() }
    }
}

/// What the sockets tell a ticking actor.
#[derive(Debug)]
pub enum TickMsg<W> {
    Wire(W),
    /// A late joiner asking for the current state.
    Get,
}

/// Whether `events` is what goes out on the event plane: the animation
/// triggers in order, then the snapshot that is the actual authority. A client
/// may miss any trigger and still be correct.
pub open spec fn published<G: TickingGame>(
    events: Seq<G::Event>,
    cues: Seq<G::Event>,
    sim: G,
) -> bool {
    &&& events.len() == cues.len() + 1
    &&& forall|i: int| 0 <= i < cues.len() ==> #[trigger] events[i] == cues[i]
    &&& sim.shown_by(events.last())
}

/// A command that arrived at `now_ms` is applied to an up-to-date sim: the
/// clock is set first, what came due meanwhile happens, then the command.
pub open spec fn played<G: TickingGame>(
    before: G,
    now_ms: u64,
    wire: G::Wire,
    after: G,
    cues: Seq<G::Event>,
) -> bool {
    exists|synced: G, settled: G, due: Seq<G::Event>, rest: Seq<G::Event>|
        {
            &&& #[trigger] before.synced(now_ms, &synced)
            &&& #[trigger] synced.polled(&settled, due)
            &&& #[trigger] settled.handled(wire, &after, rest)
            &&& cues == due + rest
        }
}

/// The actor: one sim.
pub struct TickingService<G> {
    sim: G,
}

impl<G: TickingGame> TickingService<G> {
    /// The sim that the actor holds.
    pub closed spec fn sim(&self) -> G {
        self.sim
    }

    /// An actor around a fresh sim.
    pub fn new(epoch_offset_ms: u64) -> (service: Self)
        requires
            epoch_offset_ms < MINUTE_MS,
        ensures
            service.sim().valid(),
            service.sim().is_fresh(epoch_offset_ms),
            service.sim().room() == u64::MAX,
    {
        TickingService { sim: G::fresh(epoch_offset_ms) }
    }

    /// Whether the actor may be told that it is `now_ms`.
    pub fn fits(&self, now_ms: u64) -> (fits: bool)
        requires
            self.sim().valid(),
        ensures
            fits == self.sim().time_fits(now_ms),
    {
        self.sim.fits(now_ms)
    }

    /// Whether another command fits into the counters.
    pub fn has_room(&self) -> (room: bool)
        ensures
            room == (self.sim().room() >= 2),
    {
        self.sim.has_room()
    }

    fn publish(&self, cues: Vec<G::Event>) -> (events: Vec<G::Event>)
        requires
            self.sim().valid(),
        ensures
            published(events@, cues@, self.sim()),
    {
        let mut events = cues;
        events.push(self.sim.snapshot_event());
        events
    }

    /// Tell the actor what time it is, before it parks; it answers how long it
    /// may sleep, or `None` while only a message can move it.
    pub fn park(&mut self, now_ms: u64) -> (delay: Option<u64>)
        requires
            old(self).sim().valid(),
            old(self).sim().time_fits(now_ms),
        ensures
            final(self).sim().valid(),
            final(self).sim().room() == old(self).sim().room(),
            old(self).sim().synced(now_ms, &final(self).sim()),
            delay == final(self).sim().delay(),
    {
        self.sim.sync_now(now_ms);
        self.sim.next_delay_ms()
    }

    /// A command arrived: what to publish.
    pub fn on_wire(&mut self, wire: &G::Wire, now_ms: u64) -> (events: Vec<G::Event>)
        requires
            old(self).sim().valid(),
            old(self).sim().time_fits(now_ms),
            old(self).sim().room() >= 2,
        ensures
            final(self).sim().valid(),
            exists|cues: Seq<G::Event>| #[trigger]
                played(old(self).sim(), now_ms, *wire, final(self).sim(), cues) && published(
                    events@,
                    cues,
                    final(self).sim(),
                ),
    {
        self.sim.sync_now(now_ms);
        let ghost synced = self.sim;
        let mut cues = self.sim.poll_due();
        let ghost settled = self.sim;
        let ghost due = cues@;
        let mut handled = self.sim.handle(wire);
        let ghost rest = handled@;
        cues.append(&mut handled);
        assert(old(self).sim().synced(now_ms, &synced));
        assert(synced.polled(&settled, due));
        assert(settled.handled(*wire, &self.sim, rest));
        assert(played(old(self).sim(), now_ms, *wire, self.sim(), cues@));
        self.publish(cues)
    }

    /// The sleep is over: collect what is due and publish it. Nothing is
    /// published where nothing was due.
    pub fn wake(&mut self, now_ms: u64) -> (events: Vec<G::Event>)
        requires
            old(self).sim().valid(),
            old(self).sim().time_fits(now_ms),
            old(self).sim().room() > 0,
        ensures
            final(self).sim().valid(),
            exists|synced: G, due: Seq<G::Event>|
                {
                    &&& #[trigger] old(self).sim().synced(now_ms, &synced)
                    &&& #[trigger] synced.polled(&final(self).sim(), due)
                    &&& due.len() == 0 ==> events@.len() == 0
                    &&& due.len() > 0 ==> published(events@, due, final(self).sim())
                },
            !final(self).sim().is_due(),
    {
        self.sim.sync_now(now_ms);
        let ghost synced = self.sim;
        let due = self.sim.poll_due();
        assert(old(self).sim().synced(now_ms, &synced));
        assert(synced.polled(&self.sim(), due@));
        if due.len() == 0 {
            return Vec::new();
        }
        self.publish(due)
    }

    /// Carry out one message that arrived at `now_ms`: what to answer, and
    /// what to publish.
    pub fn handle(&mut self, msg: &TickMsg<G::Wire>, now_ms: u64) -> (out: (
        Option<G::Event>,
        Vec<G::Event>,
    ))
        requires
            old(self).sim().valid(),
            old(self).sim().time_fits(now_ms),
            old(self).sim().room() >= 2,
        ensures
            final(self).sim().valid(),
            match msg {
                TickMsg::Wire(wire) => {
                    &&& out.0 is None
                    &&& exists|cues: Seq<G::Event>| #[trigger]
                        played(old(self).sim(), now_ms, *wire, final(self).sim(), cues)
                            && published(out.1@, cues, final(self).sim())
                },
                TickMsg::Get => {
                    &&& final(self).sim() == old(self).sim()
                    &&& out.0 matches Some(event) && final(self).sim().shown_by(event)
                    &&& out.1@.len() == 0
                },
            },
    {
        match msg {
            TickMsg::Wire(wire) => {
                let events = self.on_wire(wire, now_ms);
                (None, events)
            },
            TickMsg::Get => (Some(self.get()), Vec::new()),
        }
    }

    /// The current state, for a late joiner.
    pub fn get(&self) -> (event: G::Event)
        requires
            self.sim().valid(),
        ensures
            self.sim().shown_by(event),
    {
        self.sim.snapshot_event()
    }
}

/// What a command asks of a clock-driven game's actor: spectators watch the
/// futures resolve, they are not the I/O that resolves them.
pub open spec fn request<W>(role: Role, wire: W) -> Option<TickMsg<W>> {
    if role is Spectator {
        None
    } else {
        Some(TickMsg::Wire(wire))
    }
}

/// One connection: what it may do.
#[derive(Debug)]
pub struct TickingSocket<G> {
    pub role: Role,
    pub game: PhantomData<G>,
}

impl<G: TickingGame> Client for TickingSocket<G> {
    type Msg = TickMsg<G::Wire>;

    type Reply = Option<G::Event>;

    type Event = G::Event;

    type Wire = G::Wire;

    open spec fn joins(&self) -> Option<TickMsg<G::Wire>> {
        None
    }

    open spec fn greeting(&self) -> Option<G::Event> {
        None
    }

    open spec fn query(&self) -> TickMsg<G::Wire> {
        TickMsg::Get
    }

    open spec fn state_in(&self, reply: Option<G::Event>) -> Option<G::Event> {
        reply
    }

    open spec fn patient(&self) -> bool {
        false
    }

    open spec fn blank(&self, event: G::Event) -> bool {
        false
    }

    open spec fn asks(&self, wire: G::Wire) -> Option<TickMsg<G::Wire>> {
        request(self.role, wire)
    }

    open spec fn learns(&self, reply: Option<G::Event>, after: &Self) -> bool {
        *after == *self
    }

    open spec fn question(&self) -> Option<TickMsg<G::Wire>> {
        None
    }

    open spec fn farewells(&self, known: Option<Option<G::Event>>) -> Seq<TickMsg<G::Wire>> {
        Seq::empty()
    }

    fn join(&self) -> (msg: Option<TickMsg<G::Wire>>) {
        None
    }

    fn hello(&self) -> (event: Option<G::Event>) {
        None
    }

    fn get(&self) -> (msg: TickMsg<G::Wire>) {
        TickMsg::Get
    }

    fn state(&self, reply: Option<G::Event>) -> (event: Option<G::Event>) {
        reply
    }

    fn stand_in(&self) -> (event: Option<G::Event>) {
        None
    }

    fn ask(&self, wire: G::Wire) -> (msg: Option<TickMsg<G::Wire>>) {
        if self.role.may_play() {
            Some(TickMsg::Wire(wire))
        } else {
            None
        }
    }

    fn learn(&mut self, reply: Option<G::Event>) {
    }

    fn leaving(&self) -> (msg: Option<TickMsg<G::Wire>>) {
        None
    }

    fn farewell(&self, known: Option<Option<G::Event>>) -> (msgs: Vec<TickMsg<G::Wire>>) {
        Vec::new()
    }
}

/// Spectators only watch: whatever they send, the actor hears nothing of it.
pub proof fn law_spectators_only_watch<W>(wire: W)
    ensures
        request(Role::Spectator, wire) is None,
{
}

/// What a connection may ask for is what the game hears: everyone's command but
/// a spectator's, and unchanged.
pub proof fn law_requests_pass_unchanged<W>(role: Role, wire: W)
    ensures
        request(role, wire) == if role is Spectator {
            None
        } else {
            Some(TickMsg::Wire(wire))
        },
{
}

/// What goes out is the triggers in order and then the state.
pub proof fn law_snapshot_goes_out_last<G: TickingGame>(
    events: Seq<G::Event>,
    cues: Seq<G::Event>,
    sim: G,
)
    requires
        published(events, cues, sim),
    ensures
        events.len() > 0,
        events.drop_last() == cues,
        sim.shown_by(events.last()),
{
    assert(events.drop_last() =~= cues);
}

/// What the three games show and do is what their states show and do: the
/// clock is set as asked, what is due is what the state says, and the event
/// that carries the state carries all of it.
pub proof fn law_games_play_their_states(
    timer: TimerSim,
    select: SelectSim,
    looping: LoopSelectSim,
    shown: TimerEvent,
    raced: SelectEvent,
    looped: LoopSelectEvent,
)
    requires
        timer.shown_by(shown),
        select.shown_by(raced),
        looping.shown_by(looped),
    ensures
        shown == (TimerEvent::Snapshot { state: timer@.snapshot() }),
        raced == (SelectEvent::Snapshot { state: select@.snapshot() }),
        looped matches LoopSelectEvent::Snapshot { state } && state.history@ == looping@.history
            && state.rounds == looping@.rounds && state.running == looping@.running
            && state.select == looping@.select.snapshot(),
{
}

/// What the session knows of a clock game's client: it is shown the state in
/// the answer, heard as its role allows, leaves without a word, and does not
/// go on without the state.
pub proof fn law_client_needs_the_state<G: TickingGame>(
    client: TickingSocket<G>,
    state: G::Event,
    wire: G::Wire,
)
    ensures
        client.joins() is None,
        client.greeting() is None,
        client.query() == TickMsg::<G::Wire>::Get,
        client.state_in(Some(state)) == Some(state),
        client.asks(wire) == request(client.role, wire),
        client.question() is None,
        client.farewells(None).len() == 0,
        !client.patient(),
{
}

/// A command is answered in order: what fell due by now is announced before
/// what the command does, and the game ends where the command leads from there.
pub proof fn law_due_events_come_first<G: TickingGame>(
    before: G,
    now_ms: u64,
    wire: G::Wire,
    after: G,
    cues: Seq<G::Event>,
)
    requires
        played(before, now_ms, wire, after, cues),
    ensures
        exists|synced: G, settled: G, n: int|
            {
                &&& 0 <= n <= cues.len()
                &&& #[trigger] before.synced(now_ms, &synced)
                &&& #[trigger] synced.polled(&settled, cues.take(n))
                &&& #[trigger] settled.handled(wire, &after, cues.skip(n))
            },
{
    let (synced, settled, due, rest) = choose|
        synced: G,
        settled: G,
        due: Seq<G::Event>,
        rest: Seq<G::Event>,
    |
        {
            &&& #[trigger] before.synced(now_ms, &synced)
            &&& #[trigger] synced.polled(&settled, due)
            &&& #[trigger] settled.handled(wire, &after, rest)
            &&& cues == due + rest
        };
    let n: int = due.len() as int;
    assert(cues.take(n) =~= due);
    assert(cues.skip(n) =~= rest);
    assert(synced.polled(&settled, cues.take(n)));
    assert(settled.handled(wire, &after, cues.skip(n)));
}

/// Each clock-driven game carries a command out as its state says, and announces
/// exactly that.
pub proof fn law_games_do_as_they_are_told(
    timer: (TimerSim, TimerWire, TimerSim, Seq<TimerEvent>),
    race: (SelectSim, SelectWire, SelectSim, Seq<SelectEvent>),
    rounds: (LoopSelectSim, LoopSelectWire, LoopSelectSim, Seq<LoopSelectEvent>),
)
    requires
        timer.0.handled(timer.1, &timer.2, timer.3),
        race.0.handled(race.1, &race.2, race.3),
        rounds.0.handled(rounds.1, &rounds.2, rounds.3),
    ensures
        timer.2@ == timer.0@.step(timer.1).0 && timer.3 == timer.0@.step(timer.1).1,
        race.2@ == race.0@.step(race.1).0 && race.3 == race.0@.step(race.1).1,
        rounds.2@ == rounds.0@.step(rounds.1).0 && rounds.3 == rounds.0@.step(rounds.1).1,
{
}

/// A fresh game is nothing but its dial, set to the offset.
pub proof fn law_fresh_games_have_their_offset(
    timer: TimerSim,
    race: SelectSim,
    rounds: LoopSelectSim,
    offset: u64,
)
    requires
        timer.is_fresh(offset),
        race.is_fresh(offset),
        rounds.is_fresh(offset),
    ensures
        timer@.offset == offset && timer@.deadline is None && timer@.resolved is None,
        timer@.now == 0,
        race@.timer == timer@ && race@.button is Idle && race@.winner is None,
        rounds@.select == race@ && !rounds@.running && rounds@.rounds == 0,
        rounds@.history.len() == 0,
{
}

/// A clock game's client learns nothing from an answer, and no state stands for
/// one that it was not given.
pub proof fn law_client_keeps_its_role<G: TickingGame>(
    client: TickingSocket<G>,
    reply: Option<G::Event>,
    after: TickingSocket<G>,
    event: G::Event,
)
    requires
        client.learns(reply, &after),
    ensures
        after == client,
        !client.blank(event),
{
}

} // verus!

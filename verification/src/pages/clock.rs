//! The pages of the clock-driven games: the timer future, one race against it,
//! and the race in a loop. They differ in what they show; what they do is
//! written once.

use vstd::prelude::*;

use crate::clock::{Ticking, MINUTE_MS};
use crate::deck::GameMode;
use crate::games::mpsc::restart;
use crate::games::select::{
    apply_loop, apply_select, arm_label, countdown, countdown_text, dispatch_loop,
    dispatch_select, loop_button, may_press, result, result_text, round_badge,
};
use crate::games::timer::{
    apply, button, dispatch_local, readout, readout_text, tick_local,
};
use crate::protocol::{
    AppUp, Game, LoopSelectEvent, LoopSelectSnapshot, LoopSelectWire, SelectEvent, SelectSnapshot,
    SelectWire, TimerEvent, TimerSnapshot, TimerWire,
};
use crate::server::ticking::TickingGame;
use crate::sim::select::{LoopSelectSim, LoopState, SelectSim, SelectState};
use crate::sim::timer::{TimerSim, TimerState};
use crate::text::decimal;

verus! {

/// What a clock-driven game supplies to have a page.
pub trait ClockGame: TickingGame {
    /// What its page shows of it.
    type Shown;

    /// The name that the server knows it by.
    spec fn known_as() -> Game;

    /// What is shown before anything was heard.
    spec fn is_blank(shown: Self::Shown) -> bool;

    /// `shown` shows this state.
    spec fn pictured(&self, shown: Self::Shown) -> bool;

    /// An event turns `before` into `after`.
    spec fn heard(before: Self::Shown, event: Self::Event, after: Self::Shown) -> bool;

    /// A command given at `now_ms` leads to `after`.
    spec fn dispatched(&self, wire: Self::Wire, now_ms: u64, after: &Self) -> bool;

    /// The name that the server knows it by.
    fn game() -> (game: Game)
        ensures
            game == Self::known_as(),
    ;

    /// What is shown before anything was heard.
    fn blank() -> (shown: Self::Shown)
        ensures
            Self::is_blank(shown),
    ;

    /// What is shown of this state.
    fn picture(&self) -> (shown: Self::Shown)
        requires
            self.valid(),
        ensures
            self.pictured(shown),
    ;

    /// What is shown after an event.
    fn hear(shown: Self::Shown, event: Self::Event) -> (after: Self::Shown)
        ensures
            Self::heard(shown, event, after),
    ;

    /// Take a command at `now_ms`.
    fn dispatch(&mut self, wire: &Self::Wire, now_ms: u64) -> (shown: Self::Shown)
        requires
            old(self).valid(),
            old(self).time_fits(now_ms),
            old(self).room() > 0,
        ensures
            final(self).valid(),
            old(self).dispatched(*wire, now_ms, final(self)),
            final(self).pictured(shown),
    ;
}

impl ClockGame for TimerSim {
    type Shown = TimerSnapshot;

    open spec fn known_as() -> Game {
        Game::Timer
    }

    open spec fn is_blank(shown: TimerSnapshot) -> bool {
        &&& !shown.pending
        &&& shown.wall_ms == 0
        &&& shown.remaining_ms is None
        &&& shown.waited_ms is None
    }

    open spec fn pictured(&self, shown: TimerSnapshot) -> bool {
        shown == self@.snapshot()
    }

    open spec fn heard(before: TimerSnapshot, event: TimerEvent, after: TimerSnapshot) -> bool {
        after == match event {
            TimerEvent::Snapshot { state } => state,
            _ => before,
        }
    }

    open spec fn dispatched(&self, wire: TimerWire, now_ms: u64, after: &Self) -> bool {
        after@ == self@.at(now_ms).step(wire).0
    }

    fn game() -> (game: Game) {
        Game::Timer
    }

    fn blank() -> (shown: TimerSnapshot) {
        TimerSnapshot::default()
    }

    fn picture(&self) -> (shown: TimerSnapshot) {
        self.snapshot()
    }

    fn hear(shown: TimerSnapshot, event: TimerEvent) -> (after: TimerSnapshot) {
        apply(shown, &event)
    }

    fn dispatch(&mut self, wire: &TimerWire, now_ms: u64) -> (shown: TimerSnapshot) {
        dispatch_local(self, wire, now_ms)
    }
}

impl ClockGame for SelectSim {
    type Shown = SelectSnapshot;

    open spec fn known_as() -> Game {
        Game::Select
    }

    open spec fn is_blank(shown: SelectSnapshot) -> bool {
        &&& !shown.armed
        &&& TimerSim::is_blank(shown.timer)
        &&& shown.button is Idle
        &&& shown.winner is None
    }

    open spec fn pictured(&self, shown: SelectSnapshot) -> bool {
        shown == self@.snapshot()
    }

    open spec fn heard(before: SelectSnapshot, event: SelectEvent, after: SelectSnapshot) -> bool {
        after == match event {
            SelectEvent::Snapshot { state } => state,
            _ => before,
        }
    }

    open spec fn dispatched(&self, wire: SelectWire, now_ms: u64, after: &Self) -> bool {
        after@ == self@.at(now_ms).step(wire).0
    }

    fn game() -> (game: Game) {
        Game::Select
    }

    fn blank() -> (shown: SelectSnapshot) {
        SelectSnapshot::default()
    }

    fn picture(&self) -> (shown: SelectSnapshot) {
        self.snapshot()
    }

    fn hear(shown: SelectSnapshot, event: SelectEvent) -> (after: SelectSnapshot) {
        apply_select(shown, &event)
    }

    fn dispatch(&mut self, wire: &SelectWire, now_ms: u64) -> (shown: SelectSnapshot) {
        dispatch_select(self, wire, now_ms)
    }
}

impl ClockGame for LoopSelectSim {
    type Shown = LoopSelectSnapshot;

    open spec fn known_as() -> Game {
        Game::LoopSelect
    }

    open spec fn is_blank(shown: LoopSelectSnapshot) -> bool {
        &&& !shown.running
        &&& SelectSim::is_blank(shown.select)
        &&& shown.history@.len() == 0
        &&& shown.rounds == 0
    }

    open spec fn pictured(&self, shown: LoopSelectSnapshot) -> bool {
        self@.shown_by(shown)
    }

    open spec fn heard(
        before: LoopSelectSnapshot,
        event: LoopSelectEvent,
        after: LoopSelectSnapshot,
    ) -> bool {
        after == match event {
            LoopSelectEvent::Snapshot { state } => state,
            _ => before,
        }
    }

    open spec fn dispatched(&self, wire: LoopSelectWire, now_ms: u64, after: &Self) -> bool {
        after@ == self@.at(now_ms).step(wire).0
    }

    fn game() -> (game: Game) {
        Game::LoopSelect
    }

    fn blank() -> (shown: LoopSelectSnapshot) {
        LoopSelectSnapshot::default()
    }

    fn picture(&self) -> (shown: LoopSelectSnapshot) {
        self.snapshot()
    }

    fn hear(shown: LoopSelectSnapshot, event: LoopSelectEvent) -> (after: LoopSelectSnapshot) {
        apply_loop(shown, event)
    }

    fn dispatch(&mut self, wire: &LoopSelectWire, now_ms: u64) -> (shown: LoopSelectSnapshot) {
        dispatch_loop(self, wire, now_ms)
    }
}

/// What a clock-driven page holds.
pub struct ClockPage<G: ClockGame> {
    pub mode: GameMode,
    /// The game itself, in single-player mode.
    pub sim: G,
    pub state: G::Shown,
}

impl<G: ClockGame> ClockPage<G> {
    /// The invariant that everything keeps.
    pub open spec fn wf(&self) -> bool {
        self.sim.valid()
    }

    /// Whether the single-player game can count on from `now_ms`.
    pub open spec fn takes(&self, now_ms: u64) -> bool {
        self.mode is Local ==> self.sim.time_fits(now_ms) && self.sim.room() > 0
    }

    /// A page as it is mounted; the offset aligns its dial with the wall.
    pub fn open(mode: GameMode, offset_ms: u64) -> (page: Self)
        requires
            offset_ms < MINUTE_MS,
        ensures
            page.wf(),
            page.mode == mode,
            page.sim.is_fresh(offset_ms),
            G::is_blank(page.state),
    {
        ClockPage { mode, sim: G::fresh(offset_ms), state: G::blank() }
    }

    /// The server said something.
    pub fn hear(&mut self, event: G::Event)
        requires
            old(self).wf(),
        ensures
            final(self).wf(),
            final(self).mode == old(self).mode,
            final(self).sim == old(self).sim,
            G::heard(old(self).state, event, final(self).state),
    {
        let mut shown = G::blank();
        core::mem::swap(&mut shown, &mut self.state);
        self.state = G::hear(shown, event);
    }

    /// The viewer gives a command: in single-player mode the game takes it at
    /// once, in multiplayer mode it is to be sent. Yields what is to be sent.
    pub fn act(&mut self, command: G::Wire, now_ms: u64) -> (send: Option<G::Wire>)
        requires
            old(self).wf(),
            old(self).takes(now_ms),
        ensures
            final(self).wf(),
            match old(self).mode {
                GameMode::Local => {
                    &&& send is None
                    &&& final(self).mode == old(self).mode
                    &&& old(self).sim.dispatched(command, now_ms, &final(self).sim)
                    &&& final(self).sim.pictured(final(self).state)
                },
                GameMode::Remote => {
                    &&& send == Some(command)
                    &&& *final(self) == *old(self)
                },
            },
    {
        match self.mode {
            GameMode::Local => {
                self.state = self.sim.dispatch(&command, now_ms);
                None
            },
            GameMode::Remote => Some(command),
        }
    }

    /// The clock moved on. A single-player game that counts down is polled and
    /// shown anew; any other page is left alone. Yields whether it was.
    pub fn tick(&mut self, now_ms: u64) -> (moved: bool)
        requires
            old(self).wf(),
            old(self).takes(now_ms),
        ensures
            final(self).wf(),
            moved == (old(self).mode is Local && old(self).sim.delay() is Some),
            if moved {
                &&& final(self).mode == old(self).mode
                &&& final(self).sim.pictured(final(self).state)
                &&& exists|synced: G, events: Seq<G::Event>| #[trigger]
                    synced.polled(&final(self).sim, events) && old(self).sim.synced(now_ms, &synced)
            } else {
                *final(self) == *old(self)
            },
    {
        match self.mode {
            GameMode::Local => {
                if self.sim.next_delay_ms().is_none() {
                    return false;
                }
                let ghost before = self.sim;
                let events = tick_local(&mut self.sim, now_ms);
                proof {
                    let synced = choose|synced: G| #[trigger]
                        before.synced(now_ms, &synced) && synced.polled(&self.sim, events@);
                    assert(synced.polled(&self.sim, events@) && before.synced(now_ms, &synced));
                }
                self.state = self.sim.picture();
                true
            },
            GameMode::Remote => false,
        }
    }

    /// The restart button: the single-player game starts over, a multiplayer
    /// game is restarted by the server. Yields what is to be asked of it.
    pub fn restart(&mut self, offset_ms: u64) -> (ask: Option<AppUp>)
        requires
            old(self).wf(),
            offset_ms < MINUTE_MS,
        ensures
            final(self).wf(),
            match old(self).mode {
                GameMode::Local => {
                    &&& ask is None
                    &&& final(self).mode == old(self).mode
                    &&& final(self).sim.is_fresh(offset_ms)
                    &&& G::is_blank(final(self).state)
                },
                GameMode::Remote => {
                    &&& ask == Some(AppUp::Restart { game: G::known_as() })
                    &&& *final(self) == *old(self)
                },
            },
    {
        let ask = restart(self.mode, G::game());
        if ask.is_none() {
            self.sim = G::fresh(offset_ms);
            self.state = G::blank();
        }
        ask
    }
}

/// What the timer's page shows.
#[derive(Debug)]
pub struct TimerView {
    pub readout: String,
    /// What the one button does, and what it says.
    pub command: TimerWire,
    pub label: &'static str,
    pub enabled: bool,
}

impl ClockPage<TimerSim> {
    /// What the page shows.
    pub fn view(&self, connected: bool, may_play: bool) -> (view: TimerView)
        ensures
            view.readout@ == readout_text(self.state),
            view.command == (if self.state.pending {
                TimerWire::Cancel
            } else {
                TimerWire::Activate
            }),
            view.label@ == (if self.state.pending {
                "Drop the future"@
            } else {
                "Await the timer"@
            }),
            view.enabled == (connected && may_play),
    {
        let (command, label) = button(&self.state);
        TimerView {
            readout: readout(&self.state),
            command,
            label,
            enabled: connected && may_play,
        }
    }
}

/// What a race shows.
#[derive(Debug)]
pub struct RaceView {
    pub countdown: String,
    pub result: String,
    pub may_press: bool,
}

/// What `view` says of a race.
pub open spec fn race_shown(snap: SelectSnapshot, enabled: bool, view: RaceView) -> bool {
    &&& view.countdown@ == countdown_text(snap)
    &&& view.result@ == result_text(snap)
    &&& view.may_press == (snap.armed && enabled)
}

/// What a race shows.
pub fn race(snap: &SelectSnapshot, enabled: bool) -> (view: RaceView)
    ensures
        race_shown(*snap, enabled, view),
{
    RaceView {
        countdown: countdown(snap),
        result: result(snap),
        may_press: may_press(snap, enabled),
    }
}

/// What the select's page shows.
#[derive(Debug)]
pub struct SelectView {
    pub race: RaceView,
    pub label: &'static str,
    /// There is a button to leave the race.
    pub shows_leave: bool,
    pub enabled: bool,
}

impl ClockPage<SelectSim> {
    /// What the page shows.
    pub fn view(&self, connected: bool, may_play: bool) -> (view: SelectView)
        ensures
            view.enabled == (connected && may_play),
            race_shown(self.state, view.enabled, view.race),
            view.label@ == (if self.state.armed {
                "Restart the race"@
            } else {
                "Enter the select"@
            }),
            view.shows_leave == self.state.armed,
    {
        let enabled = connected && may_play;
        SelectView {
            race: race(&self.state, enabled),
            label: arm_label(self.state.armed),
            shows_leave: self.state.armed,
            enabled,
        }
    }
}

/// What the loop's page shows.
#[derive(Debug)]
pub struct LoopView {
    /// The round that is running.
    pub badge: Option<String>,
    pub race: RaceView,
    /// What the one button does, and what it says.
    pub command: LoopSelectWire,
    pub label: &'static str,
    /// There is something on the tape to clear.
    pub shows_clear: bool,
    pub enabled: bool,
}

impl ClockPage<LoopSelectSim> {
    /// What the page shows. A press only counts while the loop runs.
    pub fn view(&self, connected: bool, may_play: bool) -> (view: LoopView)
        requires
            self.state.running ==> self.state.rounds < u64::MAX,
        ensures
            view.enabled == (connected && may_play),
            match view.badge {
                Some(badge) => self.state.running && badge@ == "round "@ + decimal(
                    (self.state.rounds + 1) as nat,
                ),
                None => !self.state.running,
            },
            race_shown(self.state.select, view.enabled && self.state.running, view.race),
            view.command == (if self.state.running {
                LoopSelectWire::Stop
            } else {
                LoopSelectWire::Start
            }),
            view.label@ == (if self.state.running {
                "break"@
            } else {
                "Run the loop"@
            }),
            view.shows_clear == (self.state.history@.len() > 0),
    {
        let enabled = connected && may_play;
        let (command, label) = loop_button(self.state.running);
        LoopView {
            badge: if self.state.running {
                Some(round_badge(self.state.rounds))
            } else {
                None
            },
            race: race(&self.state.select, enabled && self.state.running),
            command,
            label,
            shows_clear: self.state.history.len() > 0,
            enabled,
        }
    }
}

/// A clock-driven page shows the snapshot it heard last, and nothing else that
/// it hears changes what it shows.
pub proof fn law_only_snapshots_are_shown(
    timer: (TimerSnapshot, TimerEvent, TimerSnapshot),
    race: (SelectSnapshot, SelectEvent, SelectSnapshot),
    rounds: (LoopSelectSnapshot, LoopSelectEvent, LoopSelectSnapshot),
)
    requires
        TimerSim::heard(timer.0, timer.1, timer.2),
        SelectSim::heard(race.0, race.1, race.2),
        LoopSelectSim::heard(rounds.0, rounds.1, rounds.2),
    ensures
        timer.1 is Snapshot ==> timer.2 == timer.1->state,
        !(timer.1 is Snapshot) ==> timer.2 == timer.0,
        race.1 is Snapshot ==> race.2 == race.1->state,
        !(race.1 is Snapshot) ==> race.2 == race.0,
        rounds.1 is Snapshot ==> rounds.2 == rounds.1->state,
        !(rounds.1 is Snapshot) ==> rounds.2 == rounds.0,
{
}

/// The button of a race works for whoever may play, while the race is on.
pub proof fn law_race_takes_presses_while_it_is_on(
    snap: SelectSnapshot,
    enabled: bool,
    view: RaceView,
)
    requires
        race_shown(snap, enabled, view),
    ensures
        view.may_press ==> snap.armed && enabled,
        snap.armed && enabled ==> view.may_press,
        view.countdown@ == countdown_text(snap),
        view.result@ == result_text(snap),
{
}

/// What is shown before anything was heard is what a fresh game shows whose
/// dial stands at the top, and nothing else is.
pub proof fn law_blank_pages_show_fresh_games(
    timer: TimerSnapshot,
    race: SelectSnapshot,
    rounds: LoopSelectSnapshot,
)
    ensures
        TimerSim::is_blank(timer) <==> timer == TimerState::fresh(0).snapshot(),
        SelectSim::is_blank(race) <==> race == SelectState::fresh(0).snapshot(),
        LoopSelectSim::is_blank(rounds) <==> LoopState::fresh(0).shown_by(rounds),
{
    assert(0int % (MINUTE_MS as int) == 0);
    if rounds.history@.len() == 0 {
        assert(rounds.history@ =~= LoopState::fresh(0).history);
    }
}

/// A command is taken at the time it is given: the clock is set first, and then
/// the game does what the command says.
pub proof fn law_commands_are_taken_at_their_time(
    timer: (TimerSim, TimerWire, TimerSim),
    race: (SelectSim, SelectWire, SelectSim),
    rounds: (LoopSelectSim, LoopSelectWire, LoopSelectSim),
    now_ms: u64,
)
    requires
        timer.0.dispatched(timer.1, now_ms, &timer.2),
        race.0.dispatched(race.1, now_ms, &race.2),
        rounds.0.dispatched(rounds.1, now_ms, &rounds.2),
    ensures
        timer.2@.now == now_ms,
        timer.2@ == timer.0@.at(now_ms).step(timer.1).0,
        race.2@ == race.0@.at(now_ms).step(race.1).0,
        rounds.2@ == rounds.0@.at(now_ms).step(rounds.1).0,
{
}

/// Each clock-driven page asks the server for its own game.
pub proof fn law_pages_know_their_games()
    ensures
        TimerSim::known_as() is Timer,
        SelectSim::known_as() is Select,
        LoopSelectSim::known_as() is LoopSelect,
{
}

} // verus!

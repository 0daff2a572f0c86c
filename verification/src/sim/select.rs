//! Two compositions of the timer and the button: `select!` over both, and the
//! same select in a loop.

use vstd::prelude::*;

use super::button::ButtonSim;
use super::timer::{
    law_boundary_is_the_next_beat, law_future_resolves_once, TimerSim, TimerState, LAST_MS,
    PERIOD_MS,
};
use crate::clock::{Ticking, MINUTE_MS};
use crate::protocol::{
    ButtonState, ButtonWire, Color, LoopSelectEvent, LoopSelectSnapshot,
    LoopSelectWire, SelectEvent, SelectSnapshot, SelectWinner, SelectWire, TimerEvent, TimerWire,
    Won, LOOP_SELECT_HISTORY,
};

verus! {

/// The select as a mathematical value.
pub struct SelectState {
    pub timer: TimerState,
    pub button: ButtonState,
    pub winner: Option<Won>,
}

impl SelectState {
    /// A race before anything happened, with its clock at zero.
    pub open spec fn fresh(offset: u64) -> Self {
        SelectState { timer: TimerState::fresh(offset), button: ButtonState::Idle, winner: None }
    }

    /// Inside the select, with both branches live. Derived from the timer:
    /// arming activates it and settling cancels it.
    pub open spec fn armed(self) -> bool {
        self.timer.deadline is Some
    }

    /// What every command keeps: both branches are live together, and a race
    /// that is on is undecided.
    pub open spec fn wf(self) -> bool {
        &&& self.timer.wf()
        &&& self.armed() <==> self.button is Pending
        &&& self.armed() ==> self.winner is None
    }

    /// Whether the clock may show `now_ms`.
    pub open spec fn fits(self, now_ms: u64) -> bool {
        self.timer.fits(now_ms)
    }

    /// The state once the clock was set.
    pub open spec fn at(self, now_ms: u64) -> Self {
        SelectState { timer: self.timer.at(now_ms), ..self }
    }

    /// Whether the timer branch completes now.
    pub open spec fn is_due(self) -> bool {
        self.timer.is_due()
    }

    /// How long until the timer branch completes. Only that branch is
    /// clock-driven.
    pub open spec fn remaining(self) -> Option<u64> {
        self.timer.remaining()
    }

    /// Both branches were created afresh.
    pub open spec fn arm(self) -> (Self, Seq<SelectEvent>) {
        (
            SelectState {
                timer: self.timer.dropped().activated(),
                button: ButtonState::Pending,
                winner: None,
            },
            seq![SelectEvent::Armed],
        )
    }

    /// A press won the race: the timer is dropped mid-flight.
    pub open spec fn button_wins(self, color: Color) -> (Self, Seq<SelectEvent>) {
        let won = Won::Button { color };
        (
            SelectState {
                timer: self.timer.dropped(),
                button: ButtonState::Ready(color),
                winner: Some(won),
            },
            seq![SelectEvent::Won { won }],
        )
    }

    /// The timer won the race: the button is dropped, and the timer keeps the
    /// duration that it yielded.
    pub open spec fn timer_wins(self) -> (Self, Seq<SelectEvent>) {
        let won = Won::Timer { waited_ms: self.timer.wait() };
        (
            SelectState {
                timer: self.timer.poll().0,
                button: ButtonState::Idle,
                winner: Some(won),
            },
            seq![SelectEvent::Won { won }],
        )
    }

    /// Neither branch exists any more.
    pub open spec fn reset(self) -> (Self, Seq<SelectEvent>) {
        (
            SelectState { timer: self.timer.dropped(), button: ButtonState::Idle, winner: None },
            seq![SelectEvent::Reset],
        )
    }

    /// What a command does, and what it announces. A press outside the select
    /// decides nothing.
    pub open spec fn step(self, wire: SelectWire) -> (Self, Seq<SelectEvent>) {
        match wire {
            SelectWire::Arm => self.arm(),
            SelectWire::Press { color } => if self.armed() {
                self.button_wins(color)
            } else {
                (self, seq![])
            },
            SelectWire::Reset => self.reset(),
        }
    }

    /// What comes due at the current time.
    pub open spec fn poll(self) -> (Self, Seq<SelectEvent>) {
        if self.is_due() {
            self.timer_wins()
        } else {
            (self, seq![])
        }
    }

    /// The state as clients see it.
    pub open spec fn snapshot(self) -> SelectSnapshot {
        SelectSnapshot {
            armed: self.armed(),
            timer: self.timer.snapshot(),
            button: self.button,
            winner: self.winner,
        }
    }
}

/// `select!` over two futures: the timer resolves on its own, the button
/// resolves from a press, and whichever gets there first wins. The losing
/// branch is *dropped*, not awaited.
pub struct SelectSim {
    timer: TimerSim,
    button: ButtonSim,
    winner: Option<Won>,
}

impl View for SelectSim {
    type V = SelectState;

    closed spec fn view(&self) -> SelectState {
        SelectState { timer: self.timer@, button: self.button@, winner: self.winner }
    }
}

impl Default for SelectSim {
    fn default() -> (sim: Self)
        ensures
            sim.wf(),
            sim@ == SelectState::fresh(0),
    {
        Self::new(0)
    }
}

impl SelectSim {
    /// The invariant that every command keeps.
    pub closed spec fn wf(&self) -> bool {
        self@.wf() && self.button.wf()
    }

    /// The invariant of the model is part of the sim's.
    pub proof fn lemma_wf(&self)
        requires
            self.wf(),
        ensures
            self@.wf(),
    {
    }

    /// Outside the select. `epoch_offset_ms` maps sim time onto wall time.
    pub fn new(epoch_offset_ms: u64) -> (sim: Self)
        requires
            epoch_offset_ms + PERIOD_MS <= LAST_MS,
        ensures
            sim.wf(),
            sim@ == SelectState::fresh(epoch_offset_ms),
    {
        SelectSim { timer: TimerSim::new(epoch_offset_ms), button: ButtonSim::new(), winner: None }
    }

    /// Carry out a command and announce what happened.
    pub fn handle(&mut self, wire: &SelectWire) -> (events: Vec<SelectEvent>)
        requires
            old(self).wf(),
        ensures
            final(self).wf(),
            (final(self)@, events@) == old(self)@.step(*wire),
    {
        let mut events: Vec<SelectEvent> = Vec::new();
        match wire {
            SelectWire::Arm => {
                self.timer.handle(&TimerWire::Cancel);
                self.timer.consume();
                self.timer.handle(&TimerWire::Activate);
                self.button.handle(&ButtonWire::Activate);
                self.winner = None;
                events.push(SelectEvent::Armed);
            },
            SelectWire::Press { color } => {
                if self.armed() {
                    self.button.handle(&ButtonWire::Press { color: *color });
                    // drop the loser, as `select!` drops the branch it did
                    // not take
                    self.timer.handle(&TimerWire::Cancel);
                    self.timer.consume();
                    let won = Won::Button { color: *color };
                    self.winner = Some(won);
                    events.push(SelectEvent::Won { won });
                }
            },
            SelectWire::Reset => {
                self.winner = None;
                self.timer.handle(&TimerWire::Cancel);
                self.timer.consume();
                self.button = ButtonSim::new();
                events.push(SelectEvent::Reset);
            },
        }
        assert(events@ =~= old(self)@.step(*wire).1);
        events
    }

    /// Inside the select, with both branches live.
    pub fn armed(&self) -> (armed: bool)
        requires
            self.wf(),
        ensures
            armed == self@.armed(),
    {
        self.timer.snapshot().pending
    }

    /// The full state, as clients see it.
    pub fn snapshot(&self) -> (snapshot: SelectSnapshot)
        requires
            self.wf(),
        ensures
            snapshot == self@.snapshot(),
    {
        SelectSnapshot {
            armed: self.armed(),
            timer: self.timer.snapshot(),
            button: self.button.state(),
            winner: self.winner,
        }
    }

    /// The branch that won, for the loop to record.
    pub fn winner(&self) -> (winner: Option<Won>)
        ensures
            winner == self@.winner,
    {
        self.winner
    }
}

impl Ticking for SelectSim {
    type Event = SelectEvent;

    open spec fn valid(&self) -> bool {
        self.wf()
    }

    open spec fn time_fits(&self, now_ms: u64) -> bool {
        self@.fits(now_ms)
    }

    open spec fn room(&self) -> nat {
        u64::MAX as nat
    }

    open spec fn is_due(&self) -> bool {
        self@.is_due()
    }

    open spec fn synced(&self, now_ms: u64, after: &Self) -> bool {
        after@ == self@.at(now_ms)
    }

    open spec fn polled(&self, after: &Self, events: Seq<SelectEvent>) -> bool {
        (after@, events) == self@.poll()
    }

    open spec fn delay(&self) -> Option<u64> {
        self@.remaining()
    }

    fn fits(&self, now_ms: u64) -> (fits: bool) {
        self.timer.fits(now_ms)
    }

    fn sync_now(&mut self, now_ms: u64) {
        self.timer.sync_now(now_ms);
    }

    fn next_delay_ms(&self) -> (delay: Option<u64>) {
        // only the timer branch is clock-driven; the button waits on a wire
        self.timer.next_delay_ms()
    }

    fn poll_due(&mut self) -> (events: Vec<SelectEvent>) {
        let mut events: Vec<SelectEvent> = Vec::new();
        let resolved = self.timer.poll_due();
        if resolved.len() > 0 {
            match resolved[0] {
                TimerEvent::Resolved { waited_ms } => {
                    let won = Won::Timer { waited_ms };
                    self.winner = Some(won);
                    self.button = ButtonSim::new();
                    events.push(SelectEvent::Won { won });
                },
                _ => {},
            }
        }
        assert(events@ =~= old(self)@.poll().1);
        events
    }
}

/// The loop as a mathematical value.
#[verifier::ext_equal]
pub struct LoopState {
    pub select: SelectState,
    pub running: bool,
    pub history: Seq<SelectWinner>,
    /// Rounds completed since the start. Kept beside the tape: a round's
    /// number is never reused, so emptying the tape does not restart it.
    pub rounds: u64,
}

/// The last `n` entries.
pub open spec fn last_entries(history: Seq<SelectWinner>, n: nat) -> Seq<SelectWinner> {
    if history.len() > n {
        history.skip(history.len() - n)
    } else {
        history
    }
}

impl LoopState {
    /// A loop before anything happened, with its clock at zero.
    pub open spec fn fresh(offset: u64) -> Self {
        LoopState {
            select: SelectState::fresh(offset),
            running: false,
            history: Seq::empty(),
            rounds: 0,
        }
    }

    /// What every command keeps: the loop runs exactly while it awaits a race,
    /// and the tape holds the newest rounds, in order, up to its length.
    pub open spec fn wf(self) -> bool {
        &&& self.select.wf()
        &&& self.running == self.select.armed()
        &&& self.history.len() <= LOOP_SELECT_HISTORY
        &&& self.history.len() <= self.rounds
        &&& forall|i: int|
            0 <= i < self.history.len() ==> (#[trigger] self.history[i]).round == self.rounds - (
            self.history.len() - 1 - i)
    }

    /// Whether `snapshot` shows this state, field by field.
    pub open spec fn shown_by(self, snapshot: LoopSelectSnapshot) -> bool {
        &&& snapshot.running == self.running
        &&& snapshot.select == self.select.snapshot()
        &&& snapshot.history@ == self.history
        &&& snapshot.rounds == self.rounds
    }

    /// Whether the clock may show `now_ms`.
    pub open spec fn fits(self, now_ms: u64) -> bool {
        self.select.fits(now_ms)
    }

    /// The state once the clock was set.
    pub open spec fn at(self, now_ms: u64) -> Self {
        LoopState { select: self.select.at(now_ms), ..self }
    }

    /// Whether a round completes now.
    pub open spec fn is_due(self) -> bool {
        self.select.is_due()
    }

    /// How long until the clock completes a round.
    pub open spec fn remaining(self) -> Option<u64> {
        self.select.remaining()
    }

    /// A round was won: it is recorded, and the loop goes around again.
    pub open spec fn record(self, after: SelectState, won: Won) -> (Self, Seq<LoopSelectEvent>) {
        let winner = SelectWinner { round: (self.rounds + 1) as u64, won };
        (
            LoopState {
                select: after.arm().0,
                history: last_entries(self.history.push(winner), LOOP_SELECT_HISTORY as nat),
                rounds: (self.rounds + 1) as u64,
                ..self
            },
            seq![
                LoopSelectEvent::Select(SelectEvent::Won { won }),
                LoopSelectEvent::Completed { winner },
                LoopSelectEvent::Select(SelectEvent::Armed),
            ],
        )
    }

    /// What a command does, and what it announces.
    pub open spec fn step(self, wire: LoopSelectWire) -> (Self, Seq<LoopSelectEvent>) {
        match wire {
            LoopSelectWire::Start => if self.running {
                (self, seq![])
            } else {
                (
                    LoopState { running: true, select: self.select.arm().0, ..self },
                    seq![LoopSelectEvent::Started, LoopSelectEvent::Select(SelectEvent::Armed)],
                )
            },
            // breaking out of the loop drops the current select mid-await
            LoopSelectWire::Stop => (
                LoopState { running: false, select: self.select.reset().0, ..self },
                seq![LoopSelectEvent::Stopped],
            ),
            LoopSelectWire::Press { color } => if self.running {
                self.record(self.select.button_wins(color).0, Won::Button { color })
            } else {
                (self, seq![])
            },
            LoopSelectWire::Clear => (
                LoopState { history: Seq::empty(), ..self },
                seq![LoopSelectEvent::Cleared],
            ),
        }
    }

    /// What comes due at the current time.
    pub open spec fn poll(self) -> (Self, Seq<LoopSelectEvent>) {
        if self.is_due() {
            self.record(
                self.select.timer_wins().0,
                Won::Timer { waited_ms: self.select.timer.wait() },
            )
        } else {
            (self, seq![])
        }
    }
}

/// The same select, in a loop: when a branch wins, the result is recorded and
/// the select is entered again.
pub struct LoopSelectSim {
    select: SelectSim,
    running: bool,
    history: Vec<SelectWinner>,
    rounds: u64,
}

impl View for LoopSelectSim {
    type V = LoopState;

    closed spec fn view(&self) -> LoopState {
        LoopState {
            select: self.select@,
            running: self.running,
            history: self.history@,
            rounds: self.rounds,
        }
    }
}

impl Default for LoopSelectSim {
    fn default() -> (sim: Self)
        ensures
            sim.wf(),
            sim@ == LoopState::fresh(0),
    {
        Self::new(0)
    }
}

impl LoopSelectSim {
    /// The invariant that every command keeps.
    pub closed spec fn wf(&self) -> bool {
        self@.wf() && self.select.wf()
    }

    /// The invariant of the model is part of the sim's.
    pub proof fn lemma_wf(&self)
        requires
            self.wf(),
        ensures
            self@.wf(),
    {
    }

    /// A loop that was not started. `epoch_offset_ms` maps sim time onto wall
    /// time.
    pub fn new(epoch_offset_ms: u64) -> (sim: Self)
        requires
            epoch_offset_ms + PERIOD_MS <= LAST_MS,
        ensures
            sim.wf(),
            sim@ == LoopState::fresh(epoch_offset_ms),
    {
        LoopSelectSim {
            select: SelectSim::new(epoch_offset_ms),
            running: false,
            history: Vec::new(),
            rounds: 0,
        }
    }

    /// Record a completed round and go around again.
    fn record(&mut self, won: Won, events: &mut Vec<LoopSelectEvent>)
        requires
            old(self).select.wf(),
            old(self).rounds < u64::MAX,
            old(self).running,
            old(self).history@.len() <= LOOP_SELECT_HISTORY,
            old(self).history@.len() <= old(self).rounds,
            forall|i: int|
                0 <= i < old(self).history@.len() ==> (#[trigger] old(self).history@[i]).round
                    == old(self).rounds - (old(self).history@.len() - 1 - i),
        ensures
            final(self).wf(),
            final(self)@ == old(self)@.record(old(self)@.select, won).0,
            final(events)@ == old(events)@ + old(self)@.record(
                old(self)@.select,
                won,
            ).1.drop_first(),
    {
        self.rounds = self.rounds + 1;
        let winner = SelectWinner { round: self.rounds, won };
        self.history.push(winner);
        // the slide shows a running tape, not a transcript
        if self.history.len() > LOOP_SELECT_HISTORY {
            self.history.remove(0);
        }
        events.push(LoopSelectEvent::Completed { winner });
        self.select.handle(&SelectWire::Arm);
        events.push(LoopSelectEvent::Select(SelectEvent::Armed));
        proof {
            self.select.lemma_wf();
            assert(self.history@ =~= last_entries(
                old(self).history@.push(winner),
                LOOP_SELECT_HISTORY as nat,
            ));
            assert(self@ =~= old(self)@.record(old(self)@.select, won).0);
            assert(events@ =~= old(events)@ + old(self)@.record(
                old(self)@.select,
                won,
            ).1.drop_first());
        }
    }

    /// Carry out a command and announce what happened.
    pub fn handle(&mut self, wire: &LoopSelectWire) -> (events: Vec<LoopSelectEvent>)
        requires
            old(self).wf(),
            old(self)@.rounds < u64::MAX,
        ensures
            final(self).wf(),
            (final(self)@, events@) == old(self)@.step(*wire),
    {
        let mut events: Vec<LoopSelectEvent> = Vec::new();
        match wire {
            LoopSelectWire::Start => {
                if !self.running {
                    self.running = true;
                    self.select.handle(&SelectWire::Arm);
                    events.push(LoopSelectEvent::Started);
                    events.push(LoopSelectEvent::Select(SelectEvent::Armed));
                    proof {
                        self.select.lemma_wf();
                    }
                }
            },
            LoopSelectWire::Stop => {
                self.running = false;
                self.select.handle(&SelectWire::Reset);
                events.push(LoopSelectEvent::Stopped);
                proof {
                    self.select.lemma_wf();
                }
            },
            LoopSelectWire::Press { color } => {
                if self.running {
                    let won = Won::Button { color: *color };
                    self.select.handle(&SelectWire::Press { color: *color });
                    events.push(LoopSelectEvent::Select(SelectEvent::Won { won }));
                    self.record(won, &mut events);
                }
            },
            LoopSelectWire::Clear => {
                self.history.clear();
                events.push(LoopSelectEvent::Cleared);
            },
        }
        proof {
            assert(self@ =~= old(self)@.step(*wire).0);
            assert(events@ =~= old(self)@.step(*wire).1);
        }
        events
    }

    /// Rounds completed since the start.
    pub fn rounds(&self) -> (rounds: u64)
        ensures
            rounds == self@.rounds,
    {
        self.rounds
    }

    /// The full state, as clients see it.
    pub fn snapshot(&self) -> (snapshot: LoopSelectSnapshot)
        requires
            self.wf(),
        ensures
            self@.shown_by(snapshot),
    {
        let history = self.history.clone();
        assert(history@ =~= self.history@);
        LoopSelectSnapshot {
            running: self.running,
            select: self.select.snapshot(),
            history,
            rounds: self.rounds,
        }
    }
}

impl Ticking for LoopSelectSim {
    type Event = LoopSelectEvent;

    open spec fn valid(&self) -> bool {
        self.wf()
    }

    open spec fn time_fits(&self, now_ms: u64) -> bool {
        self@.fits(now_ms)
    }

    open spec fn room(&self) -> nat {
        (u64::MAX - self@.rounds) as nat
    }

    open spec fn is_due(&self) -> bool {
        self@.is_due()
    }

    open spec fn synced(&self, now_ms: u64, after: &Self) -> bool {
        after@ == self@.at(now_ms)
    }

    open spec fn polled(&self, after: &Self, events: Seq<LoopSelectEvent>) -> bool {
        (after@, events) == self@.poll()
    }

    open spec fn delay(&self) -> Option<u64> {
        self@.remaining()
    }

    fn fits(&self, now_ms: u64) -> (fits: bool) {
        self.select.fits(now_ms)
    }

    fn sync_now(&mut self, now_ms: u64) {
        self.select.sync_now(now_ms);
        proof {
            self.select.lemma_wf();
            assert(self@ =~= old(self)@.at(now_ms));
        }
    }

    fn next_delay_ms(&self) -> (delay: Option<u64>) {
        self.select.next_delay_ms()
    }

    fn poll_due(&mut self) -> (events: Vec<LoopSelectEvent>) {
        let mut events: Vec<LoopSelectEvent> = Vec::new();
        let decided = self.select.poll_due();
        if decided.len() > 0 {
            match self.select.winner() {
                Some(won) => {
                    events.push(LoopSelectEvent::Select(SelectEvent::Won { won }));
                    self.record(won, &mut events);
                },
                None => {},
            }
        }
        proof {
            assert(self@ =~= old(self)@.poll().0);
            assert(events@ =~= old(self)@.poll().1);
        }
        events
    }
}

/// One race, one winner: once a branch has won, neither a press nor the clock
/// decides anything until the select is entered again.
pub proof fn law_first_winner_stands(state: SelectState, color: Color, now_ms: u64)
    requires
        state.wf(),
        state.winner is Some,
    ensures
        state.step(SelectWire::Press { color }) == (state, Seq::<SelectEvent>::empty()),
        ({
            let later = state.at(now_ms);
            later.poll() == (later, Seq::<SelectEvent>::empty())
        }),
{
}

/// The losing branch is dropped: after a press won, no deadline is left; after
/// the timer won, the button accepts nothing and the timer keeps what it
/// yielded.
pub proof fn law_loser_is_dropped(state: SelectState, color: Color)
    requires
        state.wf(),
        state.armed(),
    ensures
        state.button_wins(color).0.timer.remaining() is None,
        state.button_wins(color).0.winner == Some(Won::Button { color }),
        state.timer.is_due() ==> {
            &&& state.timer_wins().0.button is Idle
            &&& state.timer_wins().0.timer.resolved == Some(state.timer.wait())
            &&& state.timer_wins().0.winner == Some(Won::Timer { waited_ms: state.timer.wait() })
        },
{
}

/// Round numbers are never reused: whatever the command, the counter does not
/// fall, and every round on the tape is numbered at most by it, each higher
/// than the one before.
pub proof fn law_rounds_are_never_reused(state: LoopState, wire: LoopSelectWire)
    requires
        state.wf(),
        state.rounds < u64::MAX,
    ensures
        ({
            let after = state.step(wire).0;
            &&& after.rounds >= state.rounds
            &&& forall|i: int, j: int|
                #![trigger after.history[i], after.history[j]]
                0 <= i < j < after.history.len() ==> after.history[i].round
                    < after.history[j].round <= after.rounds
            &&& forall|i: int|
                0 <= i < after.history.len() && (#[trigger] after.history[i]).round > state.rounds
                    ==> after.history[i].round == state.rounds + 1
        }),
{
    let after = state.step(wire).0;
    match wire {
        LoopSelectWire::Press { color } => {
            if state.running {
                let winner = SelectWinner {
                    round: (state.rounds + 1) as u64,
                    won: Won::Button { color },
                };
                let full = state.history.push(winner);
                assert(forall|i: int|
                    0 <= i < after.history.len() ==> (#[trigger] after.history[i]).round
                        == after.rounds - (after.history.len() - 1 - i));
            }
        },
        _ => {},
    }
}

/// Entering the select starts both branches afresh, whatever was going on: the
/// race is undecided, the button waits for a press, and the timer resolves on
/// the next beat of the wall.
pub proof fn law_entering_starts_both_branches(state: SelectState)
    requires
        state.wf(),
    ensures
        ({
            let (after, said) = state.step(SelectWire::Arm);
            let shown = after.snapshot();
            &&& shown.armed
            &&& shown.button is Pending
            &&& shown.winner is None
            &&& shown.timer.pending
            &&& shown.timer.waited_ms is None
            &&& after.timer.started == Some(state.timer.now)
            &&& state.timer.now < after.timer.deadline->Some_0 <= state.timer.now + PERIOD_MS
            &&& (after.timer.deadline->Some_0 + state.timer.offset) % (PERIOD_MS as int) == 0
            &&& after.timer.now == state.timer.now
            &&& after.timer.offset == state.timer.offset
            &&& said == seq![SelectEvent::Armed]
        }),
{
    law_boundary_is_the_next_beat(state.timer.now, state.timer.offset);
}

/// A press decides a race that is on, for its colour, and leaves the select;
/// outside the select it does nothing.
pub proof fn law_press_decides_a_race_that_is_on(state: SelectState, color: Color)
    requires
        state.wf(),
    ensures
        ({
            let (after, said) = state.step(SelectWire::Press { color });
            let shown = after.snapshot();
            &&& state.snapshot().armed ==> {
                &&& !shown.armed
                &&& shown.button == ButtonState::Ready(color)
                &&& shown.winner == Some(Won::Button { color })
                &&& !shown.timer.pending
                &&& shown.timer.waited_ms is None
                &&& said == seq![SelectEvent::Won { won: Won::Button { color } }]
            }
            &&& !state.snapshot().armed ==> after == state && said.len() == 0
            &&& after.timer.now == state.timer.now
            &&& after.timer.offset == state.timer.offset
        }),
{
}

/// Leaving the select drops both branches and forgets who won.
pub proof fn law_leaving_forgets_the_race(state: SelectState)
    requires
        state.wf(),
    ensures
        ({
            let (after, said) = state.step(SelectWire::Reset);
            let shown = after.snapshot();
            &&& !shown.armed
            &&& shown.button is Idle
            &&& shown.winner is None
            &&& !shown.timer.pending
            &&& shown.timer.waited_ms is None
            &&& shown.timer.wall_ms == state.snapshot().timer.wall_ms
            &&& said == seq![SelectEvent::Reset]
        }),
{
}

/// The clock decides a race exactly when the timer's beat has come, for the
/// time that the timer waited; else it changes nothing.
pub proof fn law_clock_decides_on_the_beat(state: SelectState)
    requires
        state.wf(),
    ensures
        ({
            let (after, said) = state.poll();
            let due = state.timer.deadline;
            let waited = Won::Timer {
                waited_ms: (due->Some_0 - state.timer.started->Some_0) as u64,
            };
            &&& due is Some && due->Some_0 <= state.timer.now ==> {
                &&& !after.snapshot().armed
                &&& after.snapshot().winner == Some(waited)
                &&& after.snapshot().button is Idle
                &&& after.snapshot().timer.waited_ms == Some(
                    (due->Some_0 - state.timer.started->Some_0) as u64,
                )
                &&& said == seq![SelectEvent::Won { won: waited }]
            }
            &&& !(due is Some && due->Some_0 <= state.timer.now) ==> after == state
                && said.len() == 0
            &&& after.timer.now == state.timer.now
            &&& after.timer.offset == state.timer.offset
        }),
{
    law_future_resolves_once(state.timer);
}

/// A fresh select stands outside the race, undecided, on the wall's time; and
/// time alone moves nothing but the clock.
pub proof fn law_time_moves_only_the_clock(state: SelectState, offset: u64, now_ms: u64)
    requires
        state.wf(),
        offset < MINUTE_MS,
    ensures
        ({
            let fresh = SelectState::fresh(offset).snapshot();
            &&& !fresh.armed
            &&& fresh.winner is None
            &&& fresh.button is Idle
            &&& fresh.timer.wall_ms == offset
        }),
        state.at(now_ms).winner == state.winner,
        state.at(now_ms).button == state.button,
        state.at(now_ms).timer == state.timer.at(now_ms),
        state.remaining() == state.timer.remaining(),
        state.is_due() == state.timer.is_due(),
{
}

/// Only clearing takes rounds off the tape: starting and stopping leave it
/// exactly as it was, and clearing empties it and touches nothing else.
pub proof fn law_only_clearing_empties_the_tape(state: LoopState, wire: LoopSelectWire)
    requires
        state.wf(),
        state.rounds < u64::MAX,
    ensures
        ({
            let after = state.step(wire).0;
            &&& wire is Start || wire is Stop ==> after.history == state.history && after.rounds
                == state.rounds
            &&& wire is Press && !state.running ==> after == state
            &&& wire is Clear ==> {
                &&& after.history.len() == 0
                &&& after.rounds == state.rounds
                &&& after.running == state.running
                &&& after.select == state.select
                &&& state.step(wire).1 == seq![LoopSelectEvent::Cleared]
            }
            &&& !(wire is Clear) && state.history.len() < LOOP_SELECT_HISTORY
                ==> state.history.is_prefix_of(after.history)
            &&& !(wire is Clear) ==> forall|i: int|
                1 <= i < state.history.len() ==> after.history.contains(#[trigger] state.history[i])
        }),
{
    let after = state.step(wire).0;
    match wire {
        LoopSelectWire::Press { color } => {
            if state.running {
                law_round_goes_on_the_tape(
                    state,
                    state.select.button_wins(color).0,
                    Won::Button { color },
                );
            }
        },
        _ => {},
    }
    if !(wire is Clear) {
        let dropped = if after.history.len() > 0 && wire is Press && state.running
            && state.history.len() == LOOP_SELECT_HISTORY {
            1int
        } else {
            0int
        };
        assert forall|i: int| 1 <= i < state.history.len() implies after.history.contains(
            #[trigger] state.history[i],
        ) by {
            assert(after.history[i - dropped] == state.history[i]);
        }
    }
}

/// A completed round goes on the end of the tape under the next number, which
/// pushes the oldest off only if the tape was full, and the select is entered
/// again at once.
pub proof fn law_round_goes_on_the_tape(state: LoopState, after: SelectState, won: Won)
    requires
        state.wf(),
        state.rounds < u64::MAX,
    ensures
        ({
            let (next, said) = state.record(after, won);
            let winner = SelectWinner { round: (state.rounds + 1) as u64, won };
            &&& next.rounds == state.rounds + 1
            &&& next.running == state.running
            &&& next.history.len() > 0
            &&& next.history.last() == winner
            &&& next.history.drop_last() == if state.history.len() == LOOP_SELECT_HISTORY {
                state.history.drop_first()
            } else {
                state.history
            }
            &&& next.select.snapshot().armed
            &&& next.select.snapshot().winner is None
            &&& next.select.timer.started == Some(after.timer.now)
            &&& said == seq![
                LoopSelectEvent::Select(SelectEvent::Won { won }),
                LoopSelectEvent::Completed { winner },
                LoopSelectEvent::Select(SelectEvent::Armed),
            ]
        }),
{
    let (next, said) = state.record(after, won);
    let winner = SelectWinner { round: (state.rounds + 1) as u64, won };
    let full = state.history.push(winner);
    if state.history.len() == LOOP_SELECT_HISTORY {
        assert(next.history.drop_last() =~= state.history.drop_first());
    } else {
        assert(next.history.drop_last() =~= state.history);
    }
}

/// The loop runs from a start to a stop, and while it runs it awaits a race:
/// starting enters one, starting again does nothing, and stopping drops it.
pub proof fn law_loop_runs_from_start_to_stop(state: LoopState)
    requires
        state.wf(),
        state.rounds < u64::MAX,
    ensures
        ({
            let (started, said) = state.step(LoopSelectWire::Start);
            &&& started.running
            &&& started.select.snapshot().armed
            &&& state.running ==> started == state && said.len() == 0
            &&& !state.running ==> {
                &&& started.select.snapshot().winner is None
                &&& started.select.timer.started == Some(state.select.timer.now)
                &&& said == seq![
                    LoopSelectEvent::Started,
                    LoopSelectEvent::Select(SelectEvent::Armed),
                ]
            }
        }),
        ({
            let (stopped, said) = state.step(LoopSelectWire::Stop);
            &&& !stopped.running
            &&& !stopped.select.snapshot().armed
            &&& stopped.select.snapshot().winner is None
            &&& stopped.select.snapshot().button is Idle
            &&& stopped.select.snapshot().timer.waited_ms is None
            &&& said == seq![LoopSelectEvent::Stopped]
        }),
{
}

/// A round is completed by a press while the loop runs, or by the clock on the
/// timer's beat, and by nothing else; it counts for whoever completed it.
pub proof fn law_rounds_count_for_their_winner(state: LoopState, color: Color)
    requires
        state.wf(),
        state.rounds < u64::MAX,
    ensures
        ({
            let (pressed, said) = state.step(LoopSelectWire::Press { color });
            &&& state.running ==> pressed.history.last().won == (Won::Button { color })
                && pressed.rounds == state.rounds + 1 && pressed.running
            &&& !state.running ==> pressed == state && said.len() == 0
        }),
        ({
            let (after, said) = state.poll();
            let due = state.select.timer.deadline;
            &&& due is Some && due->Some_0 <= state.select.timer.now ==> {
                &&& after.history.last().won == (Won::Timer {
                    waited_ms: (due->Some_0 - state.select.timer.started->Some_0) as u64,
                })
                &&& after.rounds == state.rounds + 1
                &&& after.running
            }
            &&& !(due is Some && due->Some_0 <= state.select.timer.now) ==> after == state
                && said.len() == 0
        }),
{
    law_round_goes_on_the_tape(state, state.select.button_wins(color).0, Won::Button { color });
    law_round_goes_on_the_tape(
        state,
        state.select.timer_wins().0,
        Won::Timer { waited_ms: state.select.timer.wait() },
    );
}

/// What clients see of a loop is its race, its tape and its count.
pub proof fn law_snapshot_shows_the_loop(state: LoopState, shown: LoopSelectSnapshot)
    requires
        state.shown_by(shown),
    ensures
        shown.running == state.running,
        shown.rounds == state.rounds,
        shown.history@ == state.history,
        shown.select.armed == (state.select.timer.deadline is Some),
        shown.select.armed == shown.select.timer.pending,
        shown.select.winner == state.select.winner,
        shown.select.button == state.select.button,
        shown.select.timer == state.select.timer.snapshot(),
{
}

/// A fresh race is not on and undecided; a fresh loop stands still, with nothing
/// on its tape and no round behind it.
pub proof fn law_fresh_loop_stands_still(offset: u64, shown: LoopSelectSnapshot)
    requires
        LoopState::fresh(offset).shown_by(shown),
    ensures
        !shown.running,
        shown.rounds == 0,
        shown.history@.len() == 0,
        !shown.select.armed,
        shown.select.button is Idle,
        shown.select.winner is None,
        shown.select.timer == TimerState::fresh(offset).snapshot(),
        shown.select == SelectState::fresh(offset).snapshot(),
{
}

/// Time moves the clock of the race and leaves the loop alone.
pub proof fn law_time_leaves_the_loop_alone(state: LoopState, now_ms: u64)
    ensures
        state.at(now_ms).select.timer.now == now_ms,
        state.at(now_ms).select == state.select.at(now_ms),
        state.at(now_ms).running == state.running,
        state.at(now_ms).history == state.history,
        state.at(now_ms).rounds == state.rounds,
{
}

} // verus!

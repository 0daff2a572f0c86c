//! The timer future: activate it and it resolves at the next wall-clock
//! instant whose seconds are a multiple of the period, yielding how long it
//! waited.
//!
//! The period is wall-clock aligned rather than a plain sleep. Activating at
//! 0:07 waits three seconds while activating at 0:11 waits nine: a future's
//! completion is an event in the world, not a stopwatch that starts when you
//! ask.

use vstd::prelude::*;

use crate::clock::{Ticking, MINUTE_MS};
use crate::protocol::{TimerEvent, TimerSnapshot, TimerWire, TIMER_PERIOD_S};

verus! {

/// Milliseconds in the timer's period.
pub const PERIOD_MS: u64 = TIMER_PERIOD_S * 1000;

/// The latest time that the dial's clock may show.
pub const LAST_MS: u64 = 0x7fff_ffff_ffff_ffff;

/// The next instant strictly after `from` whose wall time is a multiple of the
/// period. Activating exactly on the tick waits a full period.
pub open spec fn next_boundary(from: int, offset: int) -> int {
    from + (PERIOD_MS - (from + offset) % (PERIOD_MS as int))
}

/// The timer as a mathematical value.
pub struct TimerState {
    /// When the pending future resolves. `None` is idle.
    pub deadline: Option<u64>,
    /// When the pending future was activated.
    pub started: Option<u64>,
    /// The last completed wait, in milliseconds.
    pub resolved: Option<u64>,
    pub now: u64,
    /// Wall-clock milliseconds into the minute at time zero.
    pub offset: u64,
}

impl TimerState {
    /// A timer before anything happened, with its clock at zero.
    pub open spec fn fresh(offset: u64) -> Self {
        TimerState { deadline: None, started: None, resolved: None, now: 0, offset }
    }

    /// Whether the clock may show `now_ms`.
    pub open spec fn fits(self, now_ms: u64) -> bool {
        now_ms + self.offset + PERIOD_MS <= LAST_MS
    }

    /// What every command keeps: the clock leaves room for a deadline, and a
    /// pending future resolves within one period of its activation, on the
    /// wall's beat.
    pub open spec fn wf(self) -> bool {
        &&& self.fits(self.now)
        &&& self.deadline is Some <==> self.started is Some
        &&& self.deadline matches Some(due) ==> {
            &&& due == next_boundary(self.started->Some_0 as int, self.offset as int)
            &&& due <= LAST_MS
        }
    }

    /// The state once the clock was set.
    pub open spec fn at(self, now_ms: u64) -> Self {
        TimerState { now: now_ms, ..self }
    }

    /// Idle, with the resolved value kept.
    pub open spec fn cancel(self) -> Self {
        TimerState { deadline: None, started: None, ..self }
    }

    /// Back to idle without a resolved value.
    pub open spec fn dropped(self) -> Self {
        TimerState { resolved: None, ..self.cancel() }
    }

    /// A future was created now.
    pub open spec fn activated(self) -> Self {
        TimerState {
            deadline: Some(next_boundary(self.now as int, self.offset as int) as u64),
            started: Some(self.now),
            resolved: None,
            ..self
        }
    }

    /// What a command does, and what it announces. A pending future is not
    /// restarted by asking again.
    pub open spec fn step(self, wire: TimerWire) -> (Self, Seq<TimerEvent>) {
        match wire {
            TimerWire::Activate => if self.deadline is Some {
                (self, seq![])
            } else {
                (
                    self.activated(),
                    seq![
                        TimerEvent::Activated {
                            waiting_ms: (next_boundary(self.now as int, self.offset as int)
                                - self.now) as u64,
                        },
                    ],
                )
            },
            TimerWire::Cancel => (
                self.cancel(),
                if self.deadline is Some {
                    seq![TimerEvent::Cancelled]
                } else {
                    seq![]
                },
            ),
        }
    }

    /// Whether the pending future resolves now.
    pub open spec fn is_due(self) -> bool {
        self.deadline matches Some(due) && due <= self.now
    }

    /// How long the pending future waits altogether.
    pub open spec fn wait(self) -> u64 {
        (self.deadline->Some_0 - self.started->Some_0) as u64
    }

    /// What comes due at the current time.
    pub open spec fn poll(self) -> (Self, Seq<TimerEvent>) {
        if self.is_due() {
            (
                TimerState { resolved: Some(self.wait()), ..self.cancel() },
                seq![TimerEvent::Resolved { waited_ms: self.wait() }],
            )
        } else {
            (self, seq![])
        }
    }

    /// How long until the pending future resolves.
    pub open spec fn remaining(self) -> Option<u64> {
        match self.deadline {
            Some(due) => Some(
                if due > self.now {
                    (due - self.now) as u64
                } else {
                    0u64
                },
            ),
            None => None,
        }
    }

    /// The state as clients see it.
    pub open spec fn snapshot(self) -> TimerSnapshot {
        TimerSnapshot {
            pending: self.deadline is Some,
            wall_ms: ((self.now + self.offset) % (MINUTE_MS as int)) as u64,
            remaining_ms: match self.remaining() {
                Some(ms) => Some(ms as i64),
                None => None,
            },
            waited_ms: self.resolved,
        }
    }
}

/// The state machine of the timer game.
#[derive(Debug, Clone, Copy, PartialEq, Eq, Structural)]
pub struct TimerSim {
    deadline: Option<u64>,
    started: Option<u64>,
    resolved: Option<u64>,
    now: u64,
    epoch_offset_ms: u64,
}

impl View for TimerSim {
    type V = TimerState;

    closed spec fn view(&self) -> TimerState {
        TimerState {
            deadline: self.deadline,
            started: self.started,
            resolved: self.resolved,
            now: self.now,
            offset: self.epoch_offset_ms,
        }
    }
}

impl Default for TimerSim {
    fn default() -> (sim: Self)
        ensures
            sim.wf(),
            sim@ == TimerState::fresh(0),
    {
        Self::new(0)
    }
}

impl TimerSim {
    /// The invariant that every command keeps.
    pub open spec fn wf(&self) -> bool {
        self@.wf()
    }

    /// An idle timer. `epoch_offset_ms` maps sim time onto wall time: the
    /// wall-clock milliseconds into the minute at sim time zero.
    pub fn new(epoch_offset_ms: u64) -> (sim: Self)
        requires
            epoch_offset_ms + PERIOD_MS <= LAST_MS,
        ensures
            sim.wf(),
            sim@ == TimerState::fresh(epoch_offset_ms),
    {
        TimerSim { deadline: None, started: None, resolved: None, now: 0, epoch_offset_ms }
    }

    /// Where the dial's hand points: milliseconds into the current minute.
    pub fn wall_ms(&self) -> (ms: u64)
        requires
            self.wf(),
        ensures
            ms == (self@.now + self@.offset) % (MINUTE_MS as int),
    {
        (self.now + self.epoch_offset_ms) % MINUTE_MS
    }

    /// Carry out a command and announce what happened.
    pub fn handle(&mut self, wire: &TimerWire) -> (events: Vec<TimerEvent>)
        requires
            old(self).wf(),
        ensures
            final(self).wf(),
            (final(self)@, events@) == old(self)@.step(*wire),
    {
        let mut events: Vec<TimerEvent> = Vec::new();
        match wire {
            TimerWire::Activate => {
                if self.deadline.is_none() {
                    let waiting_ms: u64 = PERIOD_MS - (self.now + self.epoch_offset_ms) % PERIOD_MS;
                    self.deadline = Some(self.now + waiting_ms);
                    self.started = Some(self.now);
                    self.resolved = None;
                    events.push(TimerEvent::Activated { waiting_ms });
                }
            },
            TimerWire::Cancel => {
                if self.deadline.is_some() {
                    events.push(TimerEvent::Cancelled);
                }
                self.deadline = None;
                self.started = None;
            },
        }
        assert(events@ =~= old(self)@.step(*wire).1);
        events
    }

    /// The full state, as clients see it.
    pub fn snapshot(&self) -> (snapshot: TimerSnapshot)
        requires
            self.wf(),
        ensures
            snapshot == self@.snapshot(),
    {
        let remaining_ms = match self.next_delay_ms() {
            Some(ms) => Some(ms as i64),
            None => None,
        };
        TimerSnapshot {
            pending: self.deadline.is_some(),
            wall_ms: self.wall_ms(),
            remaining_ms,
            waited_ms: self.resolved,
        }
    }

    /// Drop the resolved value, the way awaiting a future consumes it.
    pub fn consume(&mut self)
        requires
            old(self).wf(),
        ensures
            final(self).wf(),
            final(self)@ == (TimerState { resolved: None, ..old(self)@ }),
    {
        self.resolved = None;
    }
}

impl Ticking for TimerSim {
    type Event = TimerEvent;

    open spec fn valid(&self) -> bool {
        self.wf()
    }

    open spec fn time_fits(&self, now_ms: u64) -> bool {
        self@.fits(now_ms)
    }

    open spec fn room(&self) -> nat {
        u64::MAX as nat
    }

    open spec fn is_due(&self) -> bool {
        self@.is_due()
    }

    open spec fn synced(&self, now_ms: u64, after: &Self) -> bool {
        after@ == self@.at(now_ms)
    }

    open spec fn polled(&self, after: &Self, events: Seq<TimerEvent>) -> bool {
        (after@, events) == self@.poll()
    }

    open spec fn delay(&self) -> Option<u64> {
        self@.remaining()
    }

    fn fits(&self, now_ms: u64) -> (fits: bool) {
        now_ms <= LAST_MS - PERIOD_MS && now_ms + self.epoch_offset_ms <= LAST_MS - PERIOD_MS
    }

    fn sync_now(&mut self, now_ms: u64) {
        self.now = now_ms;
        assert(old(self).time_fits(now_ms) && old(self).valid());
        assert(self.valid() && self.room() > 0 && old(self).synced(now_ms, &*self));
    }

    fn next_delay_ms(&self) -> (delay: Option<u64>) {
        match self.deadline {
            Some(due) => if due > self.now {
                Some(due - self.now)
            } else {
                Some(0)
            },
            None => None,
        }
    }

    fn poll_due(&mut self) -> (events: Vec<TimerEvent>) {
        let mut events: Vec<TimerEvent> = Vec::new();
        match (self.deadline, self.started) {
            (Some(due), Some(started)) => {
                if due <= self.now {
                    let waited_ms: u64 = due - started;
                    self.deadline = None;
                    self.started = None;
                    self.resolved = Some(waited_ms);
                    events.push(TimerEvent::Resolved { waited_ms });
                }
            },
            _ => {},
        }
        assert(events@ =~= old(self)@.poll().1);
        events
    }
}

/// The boundary is the first beat of the wall strictly after the asking: it
/// lies on the beat, within one period, and no beat lies between.
pub proof fn law_boundary_is_the_next_beat(from: u64, offset: u64)
    ensures
        ({
            let due = next_boundary(from as int, offset as int);
            &&& from < due <= from + PERIOD_MS
            &&& (due + offset) % (PERIOD_MS as int) == 0
            &&& forall|t: int|
                from < t < due ==> #[trigger] ((t + offset) % (PERIOD_MS as int)) != 0
        }),
{
    let p = PERIOD_MS as int;
    let wall = from + offset;
    let q = wall / p;
    let r = wall % p;
    assert(wall == q * p + r);
    let due = next_boundary(from as int, offset as int);
    assert(due + offset == (q + 1) * p);
    assert(((q + 1) * p) % p == 0);
    assert forall|t: int| from < t < due implies #[trigger] ((t + offset) % p) != 0 by {
        let w = t + offset;
        assert(q * p < w < (q + 1) * p);
        if w % p == 0 {
            let k = w / p;
            assert(w == k * p);
            assert(q < k < q + 1) by (nonlinear_arith)
                requires
                    q * p < k * p,
                    k * p < (q + 1) * p,
                    p == 10000,
            ;
        }
    }
}

/// A dropped future never fires: after a cancel nothing is ever due, whatever
/// the clock shows.
pub proof fn law_dropped_future_never_fires(state: TimerState, now_ms: u64)
    requires
        state.wf(),
    ensures
        ({
            let dropped = state.step(TimerWire::Cancel).0;
            let later = dropped.at(now_ms);
            &&& later.poll() == (later, Seq::<TimerEvent>::empty())
            &&& later.remaining() is None
        }),
{
}

/// What the future yields is what it announced when it was created, provided
/// the clock reached the deadline.
pub proof fn law_wait_is_as_announced(state: TimerState, now_ms: u64)
    requires
        state.wf(),
        state.deadline is None,
        now_ms >= next_boundary(state.now as int, state.offset as int),
    ensures
        ({
            let (pending, announced) = state.step(TimerWire::Activate);
            let (resolved, yielded) = pending.at(now_ms).poll();
            let wait = (next_boundary(state.now as int, state.offset as int) - state.now) as u64;
            &&& announced == seq![TimerEvent::Activated { waiting_ms: wait }]
            &&& yielded == seq![TimerEvent::Resolved { waited_ms: wait }]
            &&& resolved.resolved == Some(wait)
            &&& resolved.deadline is None
        }),
{
}

/// The dial and the countdown agree with the wall: the hand stands where the
/// wall's clock stands, moves with it, and a pending future that is not
/// overdue resolves when the hand is on a beat.
pub proof fn law_dial_and_countdown_agree(state: TimerState)
    requires
        state.wf(),
    ensures
        ({
            let shown = state.snapshot();
            &&& shown.wall_ms < MINUTE_MS
            &&& (state.now + state.offset - shown.wall_ms) % (MINUTE_MS as int) == 0
            &&& shown.pending <==> shown.remaining_ms is Some
            &&& state.is_due() ==> shown.remaining_ms == Some(0i64)
            &&& shown.pending && !state.is_due() ==> {
                &&& shown.remaining_ms->Some_0 > 0
                &&& (shown.wall_ms + shown.remaining_ms->Some_0) % (PERIOD_MS as int) == 0
            }
        }),
{
    let shown = state.snapshot();
    let p = PERIOD_MS as int;
    let wall = state.now + state.offset;
    let turns = wall / 60000;
    assert(wall == turns * 60000 + shown.wall_ms);
    if shown.pending {
        law_boundary_is_the_next_beat(state.started->Some_0, state.offset);
        if !state.is_due() {
            let due = state.deadline->Some_0;
            let left = due - state.now;
            assert(shown.wall_ms + left == (due + state.offset) - turns * 60000);
            assert(((due + state.offset) - turns * 60000) % p == (due + state.offset) % p);
        }
    }
}

/// A fresh timer reads the wall: with its clock at zero the hand stands at the
/// offset, nothing is pending and nothing was yielded.
pub proof fn law_fresh_dial_stands_at_the_offset(offset: u64)
    requires
        offset < MINUTE_MS,
    ensures
        TimerState::fresh(offset).snapshot() == (TimerSnapshot {
            pending: false,
            wall_ms: offset,
            remaining_ms: None,
            waited_ms: None,
        }),
{
}

/// Time moves nothing but the clock: what is pending, since when and until
/// when, and what was yielded stay; the countdown falls by what passed.
pub proof fn law_time_moves_only_the_clock(state: TimerState, now_ms: u64)
    requires
        state.wf(),
    ensures
        ({
            let later = state.at(now_ms);
            &&& later.now == now_ms
            &&& later.deadline == state.deadline
            &&& later.started == state.started
            &&& later.resolved == state.resolved
            &&& later.offset == state.offset
            &&& later.snapshot().pending == state.snapshot().pending
            &&& later.snapshot().waited_ms == state.snapshot().waited_ms
            &&& state.deadline is Some && state.now <= now_ms <= state.deadline->Some_0
                ==> later.remaining()->Some_0 + (now_ms - state.now) == state.remaining()->Some_0
        }),
{
}

/// Asking makes a future that resolves on the next beat of the wall and
/// forgets what was yielded before; asking again while it is pending does
/// nothing.
pub proof fn law_asking_makes_one_future(state: TimerState)
    requires
        state.wf(),
    ensures
        ({
            let (after, said) = state.step(TimerWire::Activate);
            &&& after.deadline is Some
            &&& after.now == state.now
            &&& after.offset == state.offset
            &&& state.deadline is Some ==> after == state && said.len() == 0
            &&& state.deadline is None ==> {
                &&& after.started == Some(state.now)
                &&& after.snapshot().waited_ms is None
                &&& state.now < after.deadline->Some_0 <= state.now + PERIOD_MS
                &&& (after.deadline->Some_0 + state.offset) % (PERIOD_MS as int) == 0
                &&& said == seq![
                    TimerEvent::Activated {
                        waiting_ms: (after.deadline->Some_0 - state.now) as u64,
                    },
                ]
            }
        }),
{
    law_boundary_is_the_next_beat(state.now, state.offset);
}

/// Dropping a future leaves the timer idle, says so only if there was one, and
/// keeps what an earlier one yielded.
pub proof fn law_dropping_keeps_what_was_yielded(state: TimerState)
    requires
        state.wf(),
    ensures
        ({
            let (after, said) = state.step(TimerWire::Cancel);
            &&& !after.snapshot().pending
            &&& after.resolved == state.resolved
            &&& after.now == state.now
            &&& after.offset == state.offset
            &&& said == if state.snapshot().pending {
                seq![TimerEvent::Cancelled]
            } else {
                seq![]
            }
        }),
{
}

/// A future resolves once, when its time has come and not before: it yields
/// how long it waited from the asking to the beat, and is gone.
pub proof fn law_future_resolves_once(state: TimerState)
    requires
        state.wf(),
    ensures
        ({
            let (after, said) = state.poll();
            let due = state.deadline->Some_0;
            &&& state.deadline is Some && due <= state.now ==> {
                &&& after.deadline is None
                &&& after.started is None
                &&& after.resolved == Some((due - state.started->Some_0) as u64)
                &&& after.snapshot().waited_ms == after.resolved
                &&& said == seq![
                    TimerEvent::Resolved { waited_ms: (due - state.started->Some_0) as u64 },
                ]
            }
            &&& !(state.deadline is Some && due <= state.now) ==> after == state
                && said.len() == 0
            &&& after.now == state.now
            &&& after.offset == state.offset
            &&& after.poll() == (after, Seq::<TimerEvent>::empty())
        }),
{
    law_boundary_is_the_next_beat(
        if state.started is Some {
            state.started->Some_0
        } else {
            0
        },
        state.offset,
    );
}

/// A timer that is dropped altogether keeps nothing but its dial.
pub proof fn law_dropped_timer_is_idle(state: TimerState)
    ensures
        state.dropped().deadline is None,
        state.dropped().resolved is None,
        state.dropped().now == state.now,
        state.dropped().offset == state.offset,
{
}

} // verus!

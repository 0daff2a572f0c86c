//! The mpsc game: live senders, buffered values, values in flight and blocked
//! senders.
//!
//! A value is "in flight" while its animation plays. Flights already occupy
//! channel capacity (the core buffers the value at send time and the flight is
//! pure cosmetics on top), so a full channel blocks the next sender even while
//! values are still mid-air. Blocked senders wake in FIFO order.
//!
//! The model of the channel is a line: the values in the order in which they
//! will be received. Its front is the buffer, what stands behind is blocked.

use std::collections::VecDeque;

use vstd::prelude::*;

use crate::channels::mpsc::{
    BlockedState, MpscCore, MpscState, SendOffer, SendPoll, lemma_all_queued,
    lemma_first_queued_at, lemma_position_at, queued_values,
};
use crate::channels::waiter::WaiterId;
use crate::protocol::{BufferChar, MpscEvent, MpscSnapshot, MpscWire, SenderInfo, MPSC_CAPACITY};

verus! {

/// One sender handle: a connected client (`owner == conn`) or a clone.
#[derive(Debug, Clone, Copy, PartialEq, Eq, Structural)]
pub struct Handle {
    pub conn: u64,
    pub owner: u64,
}

/// A value mid-animation, and when it lands.
#[derive(Debug, Clone, Copy, PartialEq, Eq, Structural)]
pub struct Landing {
    pub due: u64,
    pub conn: u64,
    pub ch: char,
}

/// The game as a mathematical value.
#[verifier::ext_equal]
pub struct MpscGame {
    pub handles: Seq<Handle>,
    /// The values in the order in which they will be received.
    pub line: Seq<BufferChar>,
    /// Receives that are owed a value.
    pub pending_receives: nat,
    pub landings: Seq<Landing>,
    pub last_received: Option<BufferChar>,
    pub flight_ms: nat,
    pub now: nat,
    /// How many sends were ever blocked.
    pub ever_blocked: nat,
}

/// The smaller of two numbers.
pub open spec fn least(a: nat, b: nat) -> nat {
    if a <= b {
        a
    } else {
        b
    }
}

/// The values that did not come from `conn`.
pub open spec fn not_from(values: Seq<BufferChar>, conn: u64) -> Seq<BufferChar>
    decreases values.len(),
{
    if values.len() == 0 {
        Seq::empty()
    } else if values.last().conn == conn {
        not_from(values.drop_last(), conn)
    } else {
        not_from(values.drop_last(), conn).push(values.last())
    }
}

/// The handles other than `conn`.
pub open spec fn without_handle(handles: Seq<Handle>, conn: u64) -> Seq<Handle>
    decreases handles.len(),
{
    if handles.len() == 0 {
        Seq::empty()
    } else if handles.last().conn == conn {
        without_handle(handles.drop_last(), conn)
    } else {
        without_handle(handles.drop_last(), conn).push(handles.last())
    }
}

/// How many of the leading flights have reached their deadline.
pub open spec fn due_count(landings: Seq<Landing>, now: nat) -> nat
    decreases landings.len(),
{
    if landings.len() == 0 || landings[0].due > now {
        0
    } else {
        1 + due_count(landings.drop_first(), now)
    }
}

/// The announcement that a value took off.
pub open spec fn in_flight(value: BufferChar) -> MpscEvent {
    MpscEvent::InFlight { conn: value.conn, ch: value.ch }
}

/// The announcement that a flight ended.
pub open spec fn consumed(landing: Landing) -> MpscEvent {
    MpscEvent::Consumed { conn: landing.conn, ch: landing.ch }
}

impl MpscGame {
    /// A game without handles, with its clock at zero.
    pub open spec fn fresh(flight_ms: nat) -> Self {
        MpscGame {
            handles: Seq::empty(),
            line: Seq::empty(),
            pending_receives: 0,
            landings: Seq::empty(),
            last_received: None,
            flight_ms,
            now: 0,
            ever_blocked: 0,
        }
    }

    /// The values in the channel's buffer, oldest first.
    pub open spec fn buffered(self) -> Seq<BufferChar> {
        self.line.take(least(self.line.len(), MPSC_CAPACITY as nat) as int)
    }

    /// The values of the blocked sends, in the order in which they wake.
    pub open spec fn blocked(self) -> Seq<BufferChar> {
        self.line.skip(least(self.line.len(), MPSC_CAPACITY as nat) as int)
    }

    /// Whether `conn` is a live handle.
    pub open spec fn has_handle(self, conn: u64) -> bool {
        exists|i: int| 0 <= i < self.handles.len() && (#[trigger] self.handles[i]).conn == conn
    }

    /// Whether a value of `conn` is blocked.
    pub open spec fn is_blocked(self, conn: u64) -> bool {
        exists|i: int| 0 <= i < self.blocked().len() && (#[trigger] self.blocked()[i]).conn == conn
    }

    /// A value that takes off now.
    pub open spec fn flight(self, value: BufferChar) -> Landing {
        Landing { due: (self.now + self.flight_ms) as u64, conn: value.conn, ch: value.ch }
    }

    /// What every command keeps: no handle occurs twice, only live handles are
    /// blocked, and deadlines can be counted.
    pub open spec fn wf(self) -> bool {
        &&& self.now + self.flight_ms <= u64::MAX
        &&& forall|i: int, j: int|
            #![trigger self.handles[i], self.handles[j]]
            0 <= i < j < self.handles.len() ==> self.handles[i].conn != self.handles[j].conn
        &&& forall|i: int| 0 <= i < self.blocked().len()
            ==> self.has_handle((#[trigger] self.blocked()[i]).conn)
    }

    /// Whether another command fits into the counters.
    pub open spec fn has_room(self) -> bool {
        &&& self.handles.len() + 1 < usize::MAX
        &&& self.pending_receives < usize::MAX
        &&& self.ever_blocked < u64::MAX
    }

    /// Whether `snapshot` shows this state, field by field.
    pub open spec fn shown_by(self, snapshot: MpscSnapshot) -> bool {
        &&& snapshot.senders@ == self.sender_infos()
        &&& snapshot.buffer@ == self.landed()
        &&& snapshot.blocked_sends@ == self.blocked()
        &&& snapshot.in_flight == self.landings.len()
        &&& snapshot.waiting_receive == (self.pending_receives > 0)
        &&& snapshot.last_received == self.last_received
    }

    /// How many owed receives the line can serve.
    pub open spec fn servable(self) -> nat {
        least(self.pending_receives, self.line.len())
    }

    /// The blocked values that move up when the owed receives are served: each
    /// receive frees one slot.
    pub open spec fn waking(self) -> Seq<BufferChar> {
        self.blocked().take(least(self.servable(), self.blocked().len()) as int)
    }

    /// Every owed receive that can be served is, oldest value first, and the
    /// sends that this unblocks take off.
    pub open spec fn settle(self) -> (Self, Seq<MpscEvent>) {
        let served = self.servable();
        let woken = self.waking();
        (
            MpscGame {
                line: self.line.skip(served as int),
                pending_receives: (self.pending_receives - served) as nat,
                last_received: if served > 0 {
                    Some(self.line[served - 1])
                } else {
                    self.last_received
                },
                landings: self.landings + woken.map_values(|value: BufferChar| self.flight(value)),
                ..self
            },
            woken.map_values(|value: BufferChar| in_flight(value)),
        )
    }

    /// A handle appears; one that is already there changes nothing.
    pub open spec fn join(self, conn: u64, owner: u64) -> (Self, Seq<MpscEvent>) {
        if self.has_handle(conn) {
            (self, seq![])
        } else {
            (
                MpscGame { handles: self.handles.push(Handle { conn, owner }), ..self },
                seq![MpscEvent::SenderJoined { conn, owner }],
            )
        }
    }

    /// A handle is dropped: what it had blocked is handed back, what it had
    /// sent stays.
    pub open spec fn leave(self, conn: u64) -> (Self, Seq<MpscEvent>) {
        if !self.has_handle(conn) {
            (self, seq![])
        } else {
            let left = MpscGame {
                handles: without_handle(self.handles, conn),
                line: self.buffered() + not_from(self.blocked(), conn),
                ..self
            };
            let (after, events) = left.settle();
            (after, seq![MpscEvent::SenderLeft { conn }] + events)
        }
    }

    /// The handle `conn` sends `ch`: into the buffer while there is room,
    /// blocked at the end of the line otherwise.
    pub open spec fn send(self, conn: u64, ch: char) -> (Self, Seq<MpscEvent>) {
        let value = BufferChar { ch, conn };
        let sent = MpscGame { line: self.line.push(value), ..self };
        if self.line.len() < MPSC_CAPACITY {
            (
                MpscGame { landings: self.landings.push(self.flight(value)), ..sent },
                seq![in_flight(value)],
            )
        } else {
            (MpscGame { ever_blocked: self.ever_blocked + 1, ..sent }, seq![])
        }
    }

    /// One more receive is owed a value.
    pub open spec fn receive(self) -> (Self, Seq<MpscEvent>) {
        (MpscGame { pending_receives: self.pending_receives + 1, ..self }).settle()
    }

    /// What a command from `conn` does, and what it announces. Only a live
    /// handle can be cloned or sent from; who holds the presenter slot is not
    /// this game's to say.
    pub open spec fn step(self, wire: MpscWire, conn: u64) -> (Self, Seq<MpscEvent>) {
        match wire {
            MpscWire::CloneSender { conn: fresh } if self.has_handle(conn) => self.join(
                fresh,
                conn,
            ),
            MpscWire::Send { conn: sender, ch } if self.has_handle(sender) => self.send(sender, ch),
            MpscWire::Receive => self.receive(),
            _ => (self, seq![]),
        }
    }

    /// Every flight whose deadline has passed lands, which lets owed receives
    /// be served.
    pub open spec fn land(self) -> (Self, Seq<MpscEvent>) {
        let landed = due_count(self.landings, self.now);
        let over = self.landings.take(landed as int).map_values(
            |landing: Landing| consumed(landing),
        );
        let aloft = MpscGame { landings: self.landings.skip(landed as int), ..self };
        if landed > 0 {
            let (after, events) = aloft.settle();
            (after, over + events)
        } else {
            (self, seq![])
        }
    }

    /// The handles as clients see them.
    pub open spec fn sender_infos(self) -> Seq<SenderInfo> {
        self.handles.map_values(
            |handle: Handle|
                SenderInfo {
                    conn: handle.conn,
                    owner: handle.owner,
                    blocked: self.is_blocked(handle.conn),
                },
        )
    }

    /// The buffered values that clients draw in the buffer: a value in flight
    /// is drawn mid-air instead, so the newest ones are left out.
    pub open spec fn landed(self) -> Seq<BufferChar> {
        let aloft = least(self.landings.len(), self.buffered().len());
        self.buffered().take(self.buffered().len() - aloft)
    }
}

/// The state machine of the mpsc game. Channel truth lives in the core; this
/// driver owns the sender registry, the flight clock and the protocol mapping.
pub struct MpscSim {
    core: MpscCore<BufferChar>,
    handles: Vec<Handle>,
    /// Blocked sends with the value they carry, so a woken send can fly with
    /// the right char.
    parked: Vec<(WaiterId, BufferChar)>,
    /// How many receives are outstanding. The presenter may click Receive
    /// repeatedly; each click is a separate awaited receive, and every one of
    /// them must eventually be served.
    pending_receives: usize,
    landings: VecDeque<Landing>,
    last_received: Option<BufferChar>,
    flight_ms: u64,
    now: u64,
}

impl View for MpscSim {
    type V = MpscGame;

    closed spec fn view(&self) -> MpscGame {
        MpscGame {
            handles: self.handles@,
            line: self.core@.pending(),
            pending_receives: self.pending_receives as nat,
            landings: self.landings@,
            last_received: self.last_received,
            flight_ms: self.flight_ms as nat,
            now: self.now as nat,
            ever_blocked: self.core@.issued,
        }
    }
}

/// The values among parked sends.
spec fn parked_values(parked: Seq<(WaiterId, BufferChar)>) -> Seq<BufferChar> {
    parked.map_values(|entry: (WaiterId, BufferChar)| entry.1)
}

/// The core's queue holds exactly the parked sends, of which the first `woken`
/// have moved into the buffer.
spec fn mirrors(
    core: MpscState<BufferChar>,
    parked: Seq<(WaiterId, BufferChar)>,
    woken: int,
) -> bool {
    &&& core.wf()
    &&& core.capacity == MPSC_CAPACITY
    &&& !core.closed
    &&& core.receiver_present
    &&& core.blocked.len() == parked.len()
    &&& 0 <= woken <= parked.len()
    &&& forall|i: int| 0 <= i < parked.len()
        ==> (#[trigger] core.blocked[i]).waiter == parked[i].0
    &&& forall|i: int| 0 <= i < woken ==> (#[trigger] core.blocked[i]).state is Completed
    &&& forall|i: int|
        woken <= i < parked.len() ==> (#[trigger] core.blocked[i]).state == BlockedState::Queued(
            parked[i].1,
        )
}

impl MpscSim {
    /// The channel that the game drives.
    pub closed spec fn channel(&self) -> MpscState<BufferChar> {
        self.core@
    }

    /// The invariant that every command keeps.
    pub closed spec fn wf(&self) -> bool {
        &&& self@.wf()
        &&& mirrors(self.core@, self.parked@, 0)
        &&& self.core@.senders == self.handles@.len() + 1
    }

    /// The invariant of the model is part of the game's.
    pub proof fn lemma_wf(&self)
        requires
            self.wf(),
        ensures
            self@.wf(),
    {
    }

    /// An empty channel whose values fly for `flight_ms`.
    pub fn new(flight_ms: u64) -> (sim: Self)
        ensures
            sim.wf(),
            sim@ == MpscGame::fresh(flight_ms as nat),
    {
        let sim = MpscSim {
            core: MpscCore::new(MPSC_CAPACITY),
            handles: Vec::new(),
            parked: Vec::new(),
            pending_receives: 0,
            landings: VecDeque::new(),
            last_received: None,
            flight_ms,
            now: 0,
        };
        proof {
            lemma_all_queued(sim.core@.blocked, Seq::empty());
            assert(sim@.line =~= Seq::empty());
        }
        sim
    }

    /// Sync the sim clock with the wall clock (drivers call this before
    /// handling wires and polling landings).
    pub fn sync_now(&mut self, now_ms: u64)
        requires
            old(self).wf(),
            now_ms + old(self)@.flight_ms <= u64::MAX,
        ensures
            final(self).wf(),
            final(self)@ == (MpscGame { now: now_ms as nat, ..old(self)@ }),
    {
        self.now = now_ms;
        proof {
            lemma_same_line(old(self)@, self@);
        }
    }

    /// Advance the sim clock.
    pub fn advance(&mut self, ms: u64)
        requires
            old(self).wf(),
            old(self)@.now + ms + old(self)@.flight_ms <= u64::MAX,
        ensures
            final(self).wf(),
            final(self)@ == (MpscGame { now: old(self)@.now + ms as nat, ..old(self)@ }),
    {
        self.now = self.now + ms;
        proof {
            lemma_same_line(old(self)@, self@);
        }
    }

    /// Whether another command fits into the counters.
    pub fn has_room(&self) -> (room: bool)
        ensures
            room == self@.has_room(),
    {
        self.handles.len() < usize::MAX - 1 && self.pending_receives < usize::MAX
            && self.core.issued() < u64::MAX
    }

    /// Whether `conn` is a live handle.
    pub fn contains_sender(&self, conn: u64) -> (contains: bool)
        ensures
            contains == self@.has_handle(conn),
    {
        let mut i: usize = 0;
        while i < self.handles.len()
            invariant
                i <= self.handles.len(),
                forall|k: int| 0 <= k < i ==> (#[trigger] self.handles@[k]).conn != conn,
            decreases self.handles.len() - i,
        {
            if self.handles[i].conn == conn {
                assert(self@.handles[i as int].conn == conn);
                return true;
            }
            i = i + 1;
        }
        false
    }

    /// A new sender handle appears: a freshly connected client
    /// (`owner == conn`) or a clone.
    pub fn add_sender(&mut self, conn: u64, owner: u64) -> (events: Vec<MpscEvent>)
        requires
            old(self).wf(),
            old(self)@.handles.len() + 1 < usize::MAX,
        ensures
            final(self).wf(),
            (final(self)@, events@) == old(self)@.join(conn, owner),
    {
        let mut events: Vec<MpscEvent> = Vec::new();
        if !self.contains_sender(conn) {
            self.handles.push(Handle { conn, owner });
            self.core.add_sender();
            events.push(MpscEvent::SenderJoined { conn, owner });
            proof {
                lemma_join_wf(old(self)@, self@, Handle { conn, owner });
            }
        }
        assert(events@ =~= old(self)@.join(conn, owner).1);
        events
    }

    /// Start a value's flight animation.
    fn take_off(&mut self, value: BufferChar)
        requires
            old(self)@.now + old(self)@.flight_ms <= u64::MAX,
        ensures
            final(self)@ == (MpscGame {
                landings: old(self)@.landings.push(old(self)@.flight(value)),
                ..old(self)@
            }),
            final(self).core == old(self).core,
            final(self).parked == old(self).parked,
    {
        let due: u64 = self.now + self.flight_ms;
        self.landings.push_back(Landing { due, conn: value.conn, ch: value.ch });
    }

    /// Serve as many outstanding receives as there are values. Returns how
    /// many blocked sends that woke.
    fn drain_receives(&mut self) -> (woken: Ghost<int>)
        requires
            mirrors(old(self).core@, old(self).parked@, 0),
            old(self).core@.senders > 0,
        ensures
            ({
                let before = old(self)@;
                let served = before.servable();
                &&& woken@ == before.waking().len()
                &&& mirrors(final(self).core@, old(self).parked@, woken@)
                &&& final(self).core@.senders == old(self).core@.senders
                &&& final(self).parked == old(self).parked
                &&& final(self)@ == (MpscGame {
                    line: before.line.skip(served as int),
                    pending_receives: (before.pending_receives - served) as nat,
                    last_received: if served > 0 {
                        Some(before.line[served - 1])
                    } else {
                        before.last_received
                    },
                    ..before
                })
            }),
    {
        let ghost before = self@;
        let ghost mut served: int = 0;
        proof {
            lemma_line(self.core@, self.parked@);
            assert(before.line.skip(0) =~= before.line);
        }
        let mut waiting = true;
        while self.pending_receives > 0 && waiting
            invariant
                0 <= served <= before.line.len(),
                served <= before.pending_receives,
                self.pending_receives == before.pending_receives - served,
                mirrors(
                    self.core@,
                    self.parked@,
                    least(served as nat, self.parked@.len()) as int,
                ),
                self.core@.senders == old(self).core@.senders,
                self.core@.senders > 0,
                self.core@.issued == before.ever_blocked,
                self.parked == old(self).parked,
                self.core@.pending() == before.line.skip(served),
                self.last_received == (if served > 0 {
                    Some(before.line[served - 1])
                } else {
                    before.last_received
                }),
                self@ == (MpscGame {
                    line: before.line.skip(served),
                    pending_receives: self.pending_receives as nat,
                    last_received: self.last_received,
                    ..before
                }),
                !waiting ==> served == before.line.len(),
            decreases self.pending_receives + (if waiting {
                1int
            } else {
                0
            }),
        {
            let ghost core = self.core@;
            let ghost woken = least(served as nat, self.parked@.len()) as int;
            match self.core.try_recv() {
                Ok(value) => {
                    proof {
                        lemma_first_queued_at(core.blocked, woken);
                        assert(before.line.skip(served)[0] == before.line[served]);
                        assert(self.core@.pending() =~= before.line.skip(served + 1)) by {
                            assert(before.line.skip(served) == seq![value] + self.core@.pending());
                            assert((seq![value] + self.core@.pending()).skip(1)
                                =~= self.core@.pending());
                            assert(before.line.skip(served).skip(1) =~= before.line.skip(
                                served + 1,
                            ));
                        }
                        served = served + 1;
                    }
                    self.pending_receives = self.pending_receives - 1;
                    self.last_received = Some(value);
                },
                Err(_) => {
                    proof {
                        lemma_empty_line(core, self.parked@, woken);
                    }
                    waiting = false;
                },
            }
        }
        proof {
            lemma_line(old(self).core@, self.parked@);
            assert(before.blocked().len() == self.parked@.len());
        }
        Ghost(before.waking().len() as int)
    }

    /// Let the sends that were woken take off, oldest first.
    fn wake_parked_sends(&mut self, woken: Ghost<int>) -> (events: Vec<MpscEvent>)
        requires
            mirrors(old(self).core@, old(self).parked@, woken@),
            old(self)@.now + old(self)@.flight_ms <= u64::MAX,
        ensures
            mirrors(final(self).core@, final(self).parked@, 0),
            final(self).core@.senders == old(self).core@.senders,
            final(self).core@.pending() == old(self).core@.pending(),
            ({
                let values = parked_values(old(self).parked@).take(woken@);
                &&& final(self)@ == (MpscGame {
                    landings: old(self)@.landings + values.map_values(
                        |value: BufferChar| old(self)@.flight(value),
                    ),
                    ..old(self)@
                })
                &&& events@ == values.map_values(|value: BufferChar| in_flight(value))
            }),
    {
        let mut events: Vec<MpscEvent> = Vec::new();
        let ghost before = self@;
        let ghost parked = self.parked@;
        let ghost mut done: int = 0;
        assert(parked.skip(0) =~= parked);
        assert(before.landings + parked_values(parked).take(0).map_values(
            |value: BufferChar| before.flight(value),
        ) =~= before.landings);
        let mut more = true;
        while more && self.parked.len() > 0
            invariant
                0 <= done <= woken@ <= parked.len(),
                parked == old(self).parked@,
                before == old(self)@,
                before.now + before.flight_ms <= u64::MAX,
                self.parked@ == parked.skip(done),
                mirrors(self.core@, self.parked@, woken@ - done),
                self.core@.senders == old(self).core@.senders,
                self.core@.pending() == old(self).core@.pending(),
                self@ == (MpscGame {
                    landings: before.landings + parked_values(parked).take(done).map_values(
                        |value: BufferChar| before.flight(value),
                    ),
                    ..before
                }),
                events@ == parked_values(parked).take(done).map_values(
                    |value: BufferChar| in_flight(value),
                ),
                !more ==> done == woken@,
            decreases self.parked.len() + (if more {
                1int
            } else {
                0
            }),
        {
            let (waiter, value) = self.parked[0];
            let ghost core = self.core@;
            proof {
                lemma_position_at(core, 0);
            }
            match self.core.poll_send(waiter) {
                SendPoll::Accepted => {
                    self.parked.remove(0);
                    proof {
                        lemma_mirrors_remove(core, self.core@, parked.skip(done), woken@ - done);
                        assert(parked.skip(done).remove(0) =~= parked.skip(done + 1));
                    }
                    self.take_off(value);
                    events.push(MpscEvent::InFlight { conn: value.conn, ch: value.ch });
                    proof {
                        let values = parked_values(parked);
                        assert(values.take(done + 1) =~= values.take(done).push(value));
                        assert(values.take(done + 1).map_values(
                            |value: BufferChar| in_flight(value),
                        ) =~= values.take(done).map_values(
                            |value: BufferChar| in_flight(value),
                        ).push(in_flight(value)));
                        assert(before.landings + values.take(done + 1).map_values(
                            |value: BufferChar| before.flight(value),
                        ) =~= (before.landings + values.take(done).map_values(
                            |value: BufferChar| before.flight(value),
                        )).push(before.flight(value)));
                        done = done + 1;
                    }
                },
                _ => {
                    more = false;
                },
            }
        }
        events
    }

    /// Re-check everything after a state change: owed receives take the next
    /// values, and the sends that this wakes take off.
    fn settle(&mut self) -> (events: Vec<MpscEvent>)
        requires
            mirrors(old(self).core@, old(self).parked@, 0),
            old(self).core@.senders > 0,
            old(self)@.now + old(self)@.flight_ms <= u64::MAX,
        ensures
            mirrors(final(self).core@, final(self).parked@, 0),
            final(self).core@.senders == old(self).core@.senders,
            (final(self)@, events@) == old(self)@.settle(),
    {
        let ghost before = self@;
        proof {
            lemma_line(self.core@, self.parked@);
        }
        let woken = self.drain_receives();
        let ghost drained = self@;
        let events = self.wake_parked_sends(woken);
        proof {
            assert(before.waking() =~= parked_values(old(self).parked@).take(woken@));
            assert(self@ =~= before.settle().0);
        }
        events
    }

    /// Carry out a command from `conn` and announce what happened.
    pub fn handle(&mut self, wire: &MpscWire, conn: u64) -> (events: Vec<MpscEvent>)
        requires
            old(self).wf(),
            old(self)@.has_room(),
        ensures
            final(self).wf(),
            (final(self)@, events@) == old(self)@.step(*wire, conn),
    {
        match wire {
            MpscWire::CloneSender { conn: fresh } => {
                if self.contains_sender(conn) {
                    return self.add_sender(*fresh, conn);
                }
            },
            MpscWire::Send { conn: sender, ch } => {
                if self.contains_sender(*sender) {
                    return self.send(*sender, *ch);
                }
            },
            MpscWire::Receive => {
                self.pending_receives = self.pending_receives + 1;
                let ghost owed = self@;
                proof {
                    lemma_same_line(old(self)@, owed);
                }
                let events = self.settle();
                proof {
                    lemma_settle_wf(owed);
                }
                return events;
            },
            MpscWire::ClaimPresenter => {},
        }
        let events: Vec<MpscEvent> = Vec::new();
        assert(events@ =~= old(self)@.step(*wire, conn).1);
        events
    }

    fn send(&mut self, conn: u64, ch: char) -> (events: Vec<MpscEvent>)
        requires
            old(self).wf(),
            old(self)@.has_handle(conn),
            old(self)@.ever_blocked < u64::MAX,
        ensures
            final(self).wf(),
            (final(self)@, events@) == old(self)@.send(conn, ch),
    {
        let value = BufferChar { ch, conn };
        let mut events: Vec<MpscEvent> = Vec::new();
        let ghost core = self.core@;
        proof {
            lemma_line(core, self.parked@);
        }
        match self.core.offer_send(value) {
            SendOffer::Accepted => {
                self.take_off(value);
                events.push(MpscEvent::InFlight { conn, ch });
            },
            SendOffer::Blocked { waiter } => {
                self.parked.push((waiter, value));
            },
            SendOffer::Rejected(_) => {},
        }
        proof {
            assert(self@ =~= old(self)@.send(conn, ch).0);
            assert(events@ =~= old(self)@.send(conn, ch).1);
            lemma_send_wf(old(self)@, conn, ch);
        }
        events
    }

    /// Dropping the handle: the client disconnects (clones die with their
    /// owner's connection). Sends it had blocked are cancelled, handing the
    /// values back.
    pub fn remove_sender(&mut self, conn: u64) -> (events: Vec<MpscEvent>)
        requires
            old(self).wf(),
        ensures
            final(self).wf(),
            (final(self)@, events@) == old(self)@.leave(conn),
    {
        let mut events: Vec<MpscEvent> = Vec::new();
        if !self.contains_sender(conn) {
            assert(events@ =~= old(self)@.leave(conn).1);
            return events;
        }
        proof {
            lemma_line(self.core@, self.parked@);
        }
        self.forget_handle(conn);
        self.cancel_parked(conn);
        self.core.drop_sender();
        events.push(MpscEvent::SenderLeft { conn });
        let ghost left = self@;
        proof {
            lemma_line(self.core@, self.parked@);
            let expected = MpscGame {
                handles: without_handle(old(self)@.handles, conn),
                line: old(self)@.buffered() + not_from(old(self)@.blocked(), conn),
                ..old(self)@
            };
            assert(left =~= expected);
            lemma_leave_wf(old(self)@, conn);
        }
        let mut settled = self.settle();
        events.append(&mut settled);
        proof {
            lemma_settle_wf(left);
            assert(events@ =~= old(self)@.leave(conn).1);
        }
        events
    }

    /// Take `conn` off the registry.
    fn forget_handle(&mut self, conn: u64)
        requires
            old(self)@.wf(),
            old(self)@.has_handle(conn),
        ensures
            final(self)@ == (MpscGame {
                handles: without_handle(old(self)@.handles, conn),
                ..old(self)@
            }),
            final(self)@.handles.len() + 1 == old(self)@.handles.len(),
            final(self).core == old(self).core,
            final(self).parked == old(self).parked,
    {
        let mut i: usize = 0;
        while self.handles[i].conn != conn
            invariant
                i < self.handles.len(),
                self == old(self),
                self@.has_handle(conn),
                forall|k: int| 0 <= k < i ==> (#[trigger] self.handles@[k]).conn != conn,
            decreases self.handles.len() - i,
        {
            i = i + 1;
        }
        proof {
            lemma_without_one(self.handles@, conn, i as int);
        }
        self.handles.remove(i);
    }

    /// Cancel the blocked sends of `conn`.
    fn cancel_parked(&mut self, conn: u64)
        requires
            mirrors(old(self).core@, old(self).parked@, 0),
        ensures
            mirrors(final(self).core@, final(self).parked@, 0),
            final(self).core@.buffer == old(self).core@.buffer,
            final(self).core@.senders == old(self).core@.senders,
            final(self).core@.issued == old(self).core@.issued,
            parked_values(final(self).parked@) == not_from(
                parked_values(old(self).parked@),
                conn,
            ),
            final(self)@ == (MpscGame { line: final(self)@.line, ..old(self)@ }),
    {
        let ghost parked = self.parked@;
        let ghost mut seen: int = 0;
        let mut i: usize = 0;
        proof {
            assert(parked_values(parked.take(0)) =~= Seq::empty());
            assert(self.parked@.take(0) =~= Seq::empty());
        }
        while i < self.parked.len()
            invariant
                0 <= i <= self.parked.len(),
                0 <= seen <= parked.len(),
                parked == old(self).parked@,
                mirrors(self.core@, self.parked@, 0),
                self.core@.buffer == old(self).core@.buffer,
                self.core@.senders == old(self).core@.senders,
                self.core@.issued == old(self).core@.issued,
                self.parked@.skip(i as int) == parked.skip(seen),
                parked_values(self.parked@.take(i as int)) == not_from(
                    parked_values(parked.take(seen)),
                    conn,
                ),
                self@ == (MpscGame { line: self@.line, ..old(self)@ }),
            decreases self.parked.len() - i,
        {
            let (waiter, value) = self.parked[i];
            proof {
                assert(self.parked@.skip(i as int).len() == parked.len() - seen);
                assert(self.parked@.skip(i as int)[0] == self.parked@[i as int]);
                assert(parked.skip(seen)[0] == parked[seen]);
                assert(parked_values(parked.take(seen + 1)).drop_last() =~= parked_values(
                    parked.take(seen),
                ));
                assert(parked.skip(seen).skip(1) =~= parked.skip(seen + 1));
            }
            let ghost core = self.core@;
            let ghost here = self.parked@;
            if value.conn == conn {
                proof {
                    lemma_position_at(core, i as int);
                }
                let _back = self.core.cancel_send(waiter);
                self.parked.remove(i);
                proof {
                    assert(self.parked@.take(i as int) =~= here.take(i as int));
                    assert(self.parked@.skip(i as int) =~= here.skip(i as int).skip(1));
                }
            } else {
                i = i + 1;
                proof {
                    assert(self.parked@.skip(i as int) =~= here.skip(i - 1).skip(1));
                    assert(parked_values(self.parked@.take(i as int)) =~= parked_values(
                        here.take(i - 1),
                    ).push(value));
                }
            }
            proof {
                seen = seen + 1;
            }
        }
        proof {
            assert(self.parked@.take(i as int) =~= self.parked@);
            assert(self.parked@.skip(i as int).len() == 0);
            assert(parked.take(seen) =~= parked);
        }
    }

    /// Milliseconds until the next landing is due, if any.
    pub fn next_delay_ms(&self) -> (delay: Option<u64>)
        ensures
            match delay {
                Some(ms) => {
                    &&& self@.landings.len() > 0
                    &&& ms == if self@.landings[0].due > self@.now {
                        self@.landings[0].due - self@.now
                    } else {
                        0
                    }
                },
                None => self@.landings.len() == 0,
            },
    {
        if self.landings.len() == 0 {
            return None;
        }
        let due: u64 = self.landings[0].due;
        if due > self.now {
            Some(due - self.now)
        } else {
            Some(0)
        }
    }

    /// Land every flight whose deadline has passed. Landing is cosmetic: the
    /// value already sits in the channel, so this only ends the animation and
    /// lets a waiting receiver pick the value up.
    pub fn poll_due(&mut self) -> (events: Vec<MpscEvent>)
        requires
            old(self).wf(),
        ensures
            final(self).wf(),
            (final(self)@, events@) == old(self)@.land(),
    {
        let mut events: Vec<MpscEvent> = Vec::new();
        let ghost before = self@;
        let ghost mut landed: int = 0;
        proof {
            assert(before.landings.skip(0) =~= before.landings);
            assert(before.landings.take(0).map_values(|landing: Landing| consumed(landing))
                =~= Seq::empty());
        }
        while self.landings.len() > 0 && self.landings[0].due <= self.now
            invariant
                0 <= landed <= before.landings.len(),
                before == old(self)@,
                self@ == (MpscGame { landings: before.landings.skip(landed), ..before }),
                self.core == old(self).core,
                self.parked == old(self).parked,
                landed + due_count(before.landings.skip(landed), before.now) == due_count(
                    before.landings,
                    before.now,
                ),
                events@ == before.landings.take(landed).map_values(
                    |landing: Landing| consumed(landing),
                ),
            decreases self.landings.len(),
        {
            match self.landings.pop_front() {
                Some(landing) => {
                    events.push(MpscEvent::Consumed { conn: landing.conn, ch: landing.ch });
                    proof {
                        assert(before.landings.skip(landed).drop_first() =~= before.landings.skip(
                            landed + 1,
                        ));
                        assert(before.landings.take(landed + 1).map_values(
                            |landing: Landing| consumed(landing),
                        ) =~= before.landings.take(landed).map_values(
                            |landing: Landing| consumed(landing),
                        ).push(consumed(landing)));
                        landed = landed + 1;
                    }
                },
                None => {},
            }
        }
        let ghost aloft = self@;
        proof {
            lemma_same_line(before, aloft);
            assert(before.landings.skip(0) =~= before.landings);
        }
        if events.len() > 0 {
            let mut settled = self.settle();
            events.append(&mut settled);
            proof {
                lemma_settle_wf(aloft);
            }
        }
        proof {
            assert(self@ =~= before.land().0);
            assert(events@ =~= before.land().1);
        }
        events
    }

    /// The full state, as clients see it.
    pub fn snapshot(&self) -> (snapshot: MpscSnapshot)
        requires
            self.wf(),
        ensures
            self@.shown_by(snapshot),
    {
        proof {
            lemma_line(self.core@, self.parked@);
        }
        let in_flight: usize = self.landings.len();
        let buffered: usize = self.core.len();
        let settled: usize = if buffered > in_flight {
            buffered - in_flight
        } else {
            0
        };
        let mut buffer: Vec<BufferChar> = Vec::new();
        let mut i: usize = 0;
        while i < settled
            invariant
                i <= settled <= self.core@.buffer.len(),
                buffer@ == self.core@.buffer.take(i as int),
            decreases settled - i,
        {
            buffer.push(*self.core.buffered(i));
            i = i + 1;
            assert(buffer@ =~= self.core@.buffer.take(i as int));
        }
        let mut blocked_sends: Vec<BufferChar> = Vec::new();
        let mut i: usize = 0;
        while i < self.parked.len()
            invariant
                i <= self.parked.len(),
                blocked_sends@ == parked_values(self.parked@).take(i as int),
            decreases self.parked.len() - i,
        {
            blocked_sends.push(self.parked[i].1);
            i = i + 1;
            assert(blocked_sends@ =~= parked_values(self.parked@).take(i as int));
        }
        assert(blocked_sends@ =~= parked_values(self.parked@));
        let mut senders: Vec<SenderInfo> = Vec::new();
        let mut i: usize = 0;
        while i < self.handles.len()
            invariant
                i <= self.handles.len(),
                parked_values(self.parked@) == self@.blocked(),
                senders@ == self@.sender_infos().take(i as int),
            decreases self.handles.len() - i,
        {
            let handle = self.handles[i];
            let blocked = self.is_parked(handle.conn);
            senders.push(SenderInfo { conn: handle.conn, owner: handle.owner, blocked });
            i = i + 1;
            assert(senders@ =~= self@.sender_infos().take(i as int));
        }
        assert(senders@ =~= self@.sender_infos());
        MpscSnapshot {
            senders,
            buffer,
            blocked_sends,
            in_flight,
            waiting_receive: self.pending_receives > 0,
            last_received: self.last_received,
        }
    }

    /// Whether a value of `conn` is blocked.
    fn is_parked(&self, conn: u64) -> (parked: bool)
        requires
            parked_values(self.parked@) == self@.blocked(),
        ensures
            parked == self@.is_blocked(conn),
    {
        let mut i: usize = 0;
        while i < self.parked.len()
            invariant
                i <= self.parked.len(),
                parked_values(self.parked@) == self@.blocked(),
                forall|k: int| 0 <= k < i ==> (#[trigger] self@.blocked()[k]).conn != conn,
            decreases self.parked.len() - i,
        {
            assert(self@.blocked()[i as int] == self.parked@[i as int].1);
            if self.parked[i].1.conn == conn {
                return true;
            }
            i = i + 1;
        }
        false
    }
}

/// The line is the core's buffer followed by the parked values, and it splits
/// there.
proof fn lemma_line(core: MpscState<BufferChar>, parked: Seq<(WaiterId, BufferChar)>)
    requires
        mirrors(core, parked, 0),
    ensures
        core.pending() == core.buffer + parked_values(parked),
        ({
            let line = core.pending();
            let n = least(line.len(), MPSC_CAPACITY as nat);
            &&& n == core.buffer.len()
            &&& line.take(n as int) == core.buffer
            &&& line.skip(n as int) == parked_values(parked)
        }),
{
    lemma_all_queued(core.blocked, parked_values(parked));
    let line = core.pending();
    if parked.len() > 0 {
        assert(core.blocked[0].state is Queued);
    }
    let n = least(line.len(), MPSC_CAPACITY as nat);
    assert(line.take(n as int) =~= core.buffer);
    assert(line.skip(n as int) =~= parked_values(parked));
}

/// An empty buffer means an empty line.
proof fn lemma_empty_line(
    core: MpscState<BufferChar>,
    parked: Seq<(WaiterId, BufferChar)>,
    woken: int,
)
    requires
        mirrors(core, parked, woken),
        core.buffer.len() == 0,
    ensures
        core.pending().len() == 0,
{
    if woken < parked.len() {
        assert(core.blocked[woken].state is Queued);
    }
    lemma_none_queued(core.blocked);
}

proof fn lemma_none_queued(
    blocked: Seq<crate::channels::mpsc::BlockedSend<BufferChar>>,
)
    requires
        forall|i: int| 0 <= i < blocked.len() ==> !((#[trigger] blocked[i]).state is Queued),
    ensures
        queued_values(blocked).len() == 0,
    decreases blocked.len(),
{
    if blocked.len() > 0 {
        assert forall|i: int| 0 <= i < blocked.drop_last().len() implies !((
        #[trigger] blocked.drop_last()[i]).state is Queued) by {
            assert(blocked.drop_last()[i] == blocked[i]);
        }
        lemma_none_queued(blocked.drop_last());
    }
}

/// A woken send that was handed its outcome leaves both queues.
proof fn lemma_mirrors_remove(
    before: MpscState<BufferChar>,
    after: MpscState<BufferChar>,
    parked: Seq<(WaiterId, BufferChar)>,
    woken: int,
)
    requires
        mirrors(before, parked, woken),
        woken > 0,
        after.wf(),
        after == (MpscState { blocked: before.blocked.remove(0), ..before }),
    ensures
        mirrors(after, parked.remove(0), woken - 1),
{
    let left = parked.remove(0);
    assert forall|i: int| 0 <= i < left.len() implies (#[trigger] after.blocked[i]).waiter
        == left[i].0 by {
        assert(after.blocked[i] == before.blocked[i + 1]);
    }
    assert forall|i: int| 0 <= i < woken - 1 implies (
    #[trigger] after.blocked[i]).state is Completed by {
        assert(after.blocked[i] == before.blocked[i + 1]);
    }
    assert forall|i: int| woken - 1 <= i < left.len() implies (#[trigger] after.blocked[i]).state
        == BlockedState::Queued(left[i].1) by {
        assert(after.blocked[i] == before.blocked[i + 1]);
    }
}

/// The invariant depends on the handles, the line and the clock alone.
proof fn lemma_same_line(a: MpscGame, b: MpscGame)
    requires
        a.wf(),
        a.handles == b.handles,
        a.line == b.line,
        b.now + b.flight_ms <= u64::MAX,
    ensures
        b.wf(),
{
    assert(a.blocked() == b.blocked());
    assert forall|i: int| 0 <= i < b.blocked().len() implies b.has_handle(
        (#[trigger] b.blocked()[i]).conn,
    ) by {
        assert(a.has_handle(a.blocked()[i].conn));
    }
}

proof fn lemma_join_wf(a: MpscGame, b: MpscGame, handle: Handle)
    requires
        a.wf(),
        !a.has_handle(handle.conn),
        b == (MpscGame { handles: a.handles.push(handle), ..a }),
    ensures
        b.wf(),
{
    assert(a.blocked() == b.blocked());
    assert forall|i: int| 0 <= i < b.blocked().len() implies b.has_handle(
        (#[trigger] b.blocked()[i]).conn,
    ) by {
        let conn = a.blocked()[i].conn;
        assert(a.has_handle(conn));
        let k = choose|k: int| 0 <= k < a.handles.len() && (#[trigger] a.handles[k]).conn == conn;
        assert(b.handles[k].conn == conn);
    }
    assert forall|i: int, j: int|
        #![trigger b.handles[i], b.handles[j]]
        0 <= i < j < b.handles.len() implies b.handles[i].conn != b.handles[j].conn by {
        if j == a.handles.len() {
            assert(a.handles[i] == b.handles[i]);
        }
    }
}

proof fn lemma_send_wf(game: MpscGame, conn: u64, ch: char)
    requires
        game.wf(),
        game.has_handle(conn),
    ensures
        game.send(conn, ch).0.wf(),
{
    let value = BufferChar { ch, conn };
    let after = game.send(conn, ch).0;
    assert(after.handles == game.handles);
    if game.line.len() < MPSC_CAPACITY {
        assert(after.blocked().len() == 0);
    } else {
        assert(after.blocked() =~= game.blocked().push(value));
    }
    assert forall|i: int| 0 <= i < after.blocked().len() implies after.has_handle(
        (#[trigger] after.blocked()[i]).conn,
    ) by {
        if i < game.blocked().len() {
            assert(game.has_handle(game.blocked()[i].conn));
        }
        let c = after.blocked()[i].conn;
        assert(game.has_handle(c));
        let k = choose|k: int| 0 <= k < game.handles.len() && (#[trigger] game.handles[k]).conn
            == c;
        assert(after.handles[k].conn == c);
    }
}

/// Serving receives keeps the invariant: whoever is still blocked was before.
proof fn lemma_settle_wf(game: MpscGame)
    requires
        game.wf(),
    ensures
        game.settle().0.wf(),
{
    let after = game.settle().0;
    let served = game.servable();
    assert forall|i: int| 0 <= i < after.blocked().len() implies after.has_handle(
        (#[trigger] after.blocked()[i]).conn,
    ) by {
        let c = after.blocked()[i].conn;
        assert(after.blocked()[i] == game.line[served + MPSC_CAPACITY + i]);
        assert(game.blocked()[served + i] == game.line[served + MPSC_CAPACITY + i]);
        assert(game.has_handle(c));
        let k = choose|k: int| 0 <= k < game.handles.len() && (#[trigger] game.handles[k]).conn
            == c;
        assert(after.handles[k].conn == c);
    }
}

/// Dropping one of several distinct handles removes exactly that one.
proof fn lemma_without_one(handles: Seq<Handle>, conn: u64, i: int)
    requires
        0 <= i < handles.len(),
        handles[i].conn == conn,
        forall|a: int, b: int|
            #![trigger handles[a], handles[b]]
            0 <= a < b < handles.len() ==> handles[a].conn != handles[b].conn,
    ensures
        without_handle(handles, conn) == handles.remove(i),
    decreases handles.len(),
{
    let front = handles.drop_last();
    assert forall|a: int, b: int|
        #![trigger front[a], front[b]]
        0 <= a < b < front.len() implies front[a].conn != front[b].conn by {
        assert(handles[a].conn != handles[b].conn);
    }
    if i < handles.len() - 1 {
        assert(handles[i].conn != handles.last().conn);
        lemma_without_one(front, conn, i);
        assert(front.remove(i).push(handles.last()) =~= handles.remove(i));
    } else {
        assert forall|k: int| 0 <= k < front.len() implies (#[trigger] front[k]).conn != conn by {
            assert(handles[k].conn != handles[i].conn);
        }
        lemma_without_none(front, conn);
        assert(handles.remove(i) =~= front);
    }
}

proof fn lemma_without_none(handles: Seq<Handle>, conn: u64)
    requires
        forall|k: int| 0 <= k < handles.len() ==> (#[trigger] handles[k]).conn != conn,
    ensures
        without_handle(handles, conn) == handles,
    decreases handles.len(),
{
    if handles.len() > 0 {
        let front = handles.drop_last();
        assert forall|k: int| 0 <= k < front.len() implies (#[trigger] front[k]).conn != conn by {
            assert(handles[k].conn != conn);
        }
        lemma_without_none(front, conn);
        assert(front.push(handles.last()) =~= handles);
    } else {
        assert(handles =~= Seq::empty());
    }
}

/// What remains of the values after dropping one sender's came from others.
proof fn lemma_not_from(values: Seq<BufferChar>, conn: u64)
    ensures
        forall|i: int|
            0 <= i < not_from(values, conn).len() ==> {
                &&& (#[trigger] not_from(values, conn)[i]).conn != conn
                &&& values.contains(not_from(values, conn)[i])
            },
        not_from(values, conn).len() <= values.len(),
    decreases values.len(),
{
    if values.len() > 0 {
        let front = values.drop_last();
        lemma_not_from(front, conn);
        assert forall|i: int| 0 <= i < not_from(values, conn).len() implies {
            &&& (#[trigger] not_from(values, conn)[i]).conn != conn
            &&& values.contains(not_from(values, conn)[i])
        } by {
            let kept = not_from(values, conn)[i];
            if i < not_from(front, conn).len() {
                assert(kept == not_from(front, conn)[i]);
                let k = choose|k: int| 0 <= k < front.len() && front[k] == kept;
                assert(values[k] == kept);
            } else {
                assert(values[values.len() - 1] == kept);
            }
        }
    }
}

proof fn lemma_leave_wf(game: MpscGame, conn: u64)
    requires
        game.wf(),
        game.has_handle(conn),
    ensures
        (MpscGame {
            handles: without_handle(game.handles, conn),
            line: game.buffered() + not_from(game.blocked(), conn),
            ..game
        }).wf(),
{
    let left = MpscGame {
        handles: without_handle(game.handles, conn),
        line: game.buffered() + not_from(game.blocked(), conn),
        ..game
    };
    let gone = choose|k: int| 0 <= k < game.handles.len() && (#[trigger] game.handles[k]).conn
        == conn;
    lemma_without_one(game.handles, conn, gone);
    lemma_not_from(game.blocked(), conn);
    assert(left.blocked() =~= not_from(game.blocked(), conn));
    assert forall|i: int| 0 <= i < left.blocked().len() implies left.has_handle(
        (#[trigger] left.blocked()[i]).conn,
    ) by {
        let value = left.blocked()[i];
        let b = choose|b: int| 0 <= b < game.blocked().len() && game.blocked()[b] == value;
        assert(game.has_handle(game.blocked()[b].conn));
        let k = choose|k: int| 0 <= k < game.handles.len() && (#[trigger] game.handles[k]).conn
            == value.conn;
        let j = if k < gone {
            k
        } else {
            k - 1
        };
        assert(left.handles[j] == game.handles[k]);
    }
    assert forall|i: int, j: int|
        #![trigger left.handles[i], left.handles[j]]
        0 <= i < j < left.handles.len() implies left.handles[i].conn != left.handles[j].conn by {
        let a = if i < gone {
            i
        } else {
            i + 1
        };
        let b = if j < gone {
            j
        } else {
            j + 1
        };
        assert(game.handles[a].conn != game.handles[b].conn);
    }
}

/// The game agrees with the channel it drives: what it says is buffered is what
/// the channel has buffered, what it says is blocked is what waits for room
/// there, and the channel is open as long as the game runs.
pub proof fn law_driver_agrees_with_the_channel(sim: &MpscSim)
    requires
        sim.wf(),
    ensures
        sim.channel().wf(),
        sim.channel().capacity == MPSC_CAPACITY,
        !sim.channel().closed,
        sim.channel().buffer == sim@.buffered(),
        queued_values(sim.channel().blocked) == sim@.blocked(),
        sim.channel().pending() == sim@.line,
        sim.channel().blocked.len() == sim@.blocked().len(),
{
    lemma_line(sim.core@, sim.parked@);
    lemma_all_queued(sim.core@.blocked, parked_values(sim.parked@));
}

/// Every value is received, in the order in which it was sent: a receive takes
/// the front of the line, a send joins its end, and nothing else moves it.
pub proof fn law_line_is_fifo(game: MpscGame, conn: u64, ch: char)
    requires
        game.wf(),
        game.pending_receives == 0,
    ensures
        game.send(conn, ch).0.line == game.line.push(BufferChar { ch, conn }),
        game.line.len() > 0 ==> {
            &&& game.receive().0.line == game.line.skip(1)
            &&& game.receive().0.last_received == Some(game.line[0])
            &&& game.receive().0.pending_receives == 0
        },
        game.line.len() == 0 ==> {
            &&& game.receive().0.line == game.line
            &&& game.receive().0.pending_receives == 1
        },
{
    assert(game.line.skip(0) =~= game.line);
}

/// A receive frees one slot, and the front-most blocked send takes it: it
/// wakes, and takes off.
pub proof fn law_receive_wakes_the_front(game: MpscGame)
    requires
        game.wf(),
        game.pending_receives == 0,
        game.blocked().len() > 0,
    ensures
        ({
            let (after, events) = game.receive();
            &&& events == seq![in_flight(game.blocked()[0])]
            &&& after.blocked() == game.blocked().skip(1)
            &&& after.buffered() == game.buffered().skip(1).push(game.blocked()[0])
        }),
{
    let (after, events) = game.receive();
    assert(events =~= seq![in_flight(game.blocked()[0])]);
    assert(after.blocked() =~= game.blocked().skip(1));
    assert(after.buffered() =~= game.buffered().skip(1).push(game.blocked()[0]));
}

/// Every owed receive is served as soon as there is a value: after settling,
/// receives are only owed while the line is empty.
pub proof fn law_receives_are_only_owed_on_an_empty_line(game: MpscGame)
    ensures
        game.settle().0.pending_receives > 0 ==> game.settle().0.line.len() == 0,
        game.settle().0.settle() == (game.settle().0, Seq::<MpscEvent>::empty()),
{
    let after = game.settle().0;
    assert(after.line.skip(0) =~= after.line);
    assert(after.waking() =~= Seq::empty());
    assert(after.settle().0.landings =~= after.landings);
    assert(after.settle().0 =~= after);
    assert(after.settle().1 =~= Seq::<MpscEvent>::empty());
}

/// A value is shown exactly once: while no more values fly than are buffered,
/// what is drawn in the buffer and what is drawn in flight add up to the
/// buffer, which never exceeds the capacity.
pub proof fn law_values_are_shown_once(game: MpscGame)
    ensures
        game.buffered().len() <= MPSC_CAPACITY,
        game.landings.len() <= game.buffered().len() ==> game.landed().len() + game.landings.len()
            == game.buffered().len(),
        game.line == game.buffered() + game.blocked(),
{
    assert(game.line =~= game.buffered() + game.blocked());
}

impl MpscGame {
    /// The state after `n` receives, one after the other.
    pub open spec fn after_receives(self, n: nat) -> Self
        decreases n,
    {
        if n == 0 {
            self
        } else {
            self.after_receives((n - 1) as nat).receive().0
        }
    }
}

/// While no receive is owed, `n` receives take the first `n` values of the
/// line, and the last of them is what was received last.
proof fn lemma_receives_take_the_front(game: MpscGame, n: nat)
    requires
        game.pending_receives == 0,
        n <= game.line.len(),
    ensures
        game.after_receives(n).line == game.line.skip(n as int),
        game.after_receives(n).pending_receives == 0,
        n > 0 ==> game.after_receives(n).last_received == Some(game.line[n - 1]),
    decreases n,
{
    if n == 0 {
        assert(game.line.skip(0) =~= game.line);
    } else {
        lemma_receives_take_the_front(game, (n - 1) as nat);
        assert(game.line.skip(n - 1).skip(1) =~= game.line.skip(n as int));
    }
}

/// What is drawn in the buffer is what comes next: its values are those that
/// the next receives yield, oldest first. Behind them come the values still in
/// the air, then those of the blocked sends; so a value that flies behind
/// everything that landed is never drawn as buffered, and one that landed and
/// was not received stays drawn.
pub proof fn law_buffer_shows_what_comes_next(game: MpscGame, shown: MpscSnapshot, i: int)
    requires
        game.shown_by(shown),
        game.pending_receives == 0,
        0 <= i < shown.buffer@.len(),
    ensures
        game.after_receives((i + 1) as nat).last_received == Some(shown.buffer@[i]),
        shown.buffer@.is_prefix_of(game.line),
        shown.buffer@.len() + game.landings.len() + shown.blocked_sends@.len() == game.line.len(),
        shown.blocked_sends@ == game.line.skip(
            (shown.buffer@.len() + game.landings.len()) as int,
        ),
{
    lemma_receives_take_the_front(game, (i + 1) as nat);
}

/// What clients see of a game: every handle with its owner, blocked exactly if
/// one of its values waits for room; how many values fly; whether a receive is
/// owed; and what was received last.
pub proof fn law_snapshot_shows_the_game(game: MpscGame, shown: MpscSnapshot, i: int)
    requires
        game.shown_by(shown),
        0 <= i < game.handles.len(),
    ensures
        shown.senders@.len() == game.handles.len(),
        shown.senders@[i].conn == game.handles[i].conn,
        shown.senders@[i].owner == game.handles[i].owner,
        shown.senders@[i].blocked <==> exists|k: int|
            0 <= k < shown.blocked_sends@.len() && (#[trigger] shown.blocked_sends@[k]).conn
                == game.handles[i].conn,
        shown.blocked_sends@.len() > 0 ==> game.line.len() > MPSC_CAPACITY,
        shown.in_flight == game.landings.len(),
        shown.waiting_receive <==> game.pending_receives > 0,
        shown.last_received == game.last_received,
{
    if shown.senders@[i].blocked {
        let k = choose|k: int|
            0 <= k < game.blocked().len() && (#[trigger] game.blocked()[k]).conn
                == game.handles[i].conn;
        assert(shown.blocked_sends@[k].conn == game.handles[i].conn);
    }
    if exists|k: int|
        0 <= k < shown.blocked_sends@.len() && (#[trigger] shown.blocked_sends@[k]).conn
            == game.handles[i].conn {
        let k = choose|k: int|
            0 <= k < shown.blocked_sends@.len() && (#[trigger] shown.blocked_sends@[k]).conn
                == game.handles[i].conn;
        assert(game.blocked()[k].conn == game.handles[i].conn);
    }
}

/// A value sent while there is room takes off and lands a flight later; one
/// sent into a full channel stays on the ground, blocked, and is not
/// announced. Either way it is the last in line, and nothing else moves.
pub proof fn law_send_flies_or_blocks(game: MpscGame, conn: u64, ch: char)
    requires
        game.wf(),
    ensures
        ({
            let (after, said) = game.send(conn, ch);
            let full = game.line.len() >= MPSC_CAPACITY;
            &&& after.line.len() == game.line.len() + 1
            &&& after.line.last() == (BufferChar { ch, conn })
            &&& after.line.drop_last() == game.line
            &&& after.handles == game.handles
            &&& after.pending_receives == game.pending_receives
            &&& after.last_received == game.last_received
            &&& after.now == game.now
            &&& after.flight_ms == game.flight_ms
            &&& full ==> {
                &&& after.landings == game.landings
                &&& after.blocked().len() > 0
                &&& after.blocked().last() == (BufferChar { ch, conn })
                &&& said.len() == 0
            }
            &&& !full ==> {
                &&& after.blocked().len() == 0
                &&& after.landings.drop_last() == game.landings
                &&& after.landings.len() == game.landings.len() + 1
                &&& after.landings.last().due == game.now + game.flight_ms
                &&& after.landings.last().conn == conn
                &&& after.landings.last().ch == ch
                &&& said == seq![MpscEvent::InFlight { conn, ch }]
            }
        }),
{
    let after = game.send(conn, ch).0;
    assert(after.line.drop_last() =~= game.line);
    if game.line.len() < MPSC_CAPACITY {
        assert(after.landings.drop_last() =~= game.landings);
    }
}

/// Only live handles play: a send from a handle that is gone, a clone by a
/// connection without a handle, and a claim change and announce nothing. A
/// clone adds a handle, as the cloner's.
pub proof fn law_only_live_handles_play(game: MpscGame, conn: u64, other: u64, ch: char)
    ensures
        game.step(MpscWire::ClaimPresenter, conn) == (game, Seq::<MpscEvent>::empty()),
        !game.has_handle(other) ==> game.step(MpscWire::Send { conn: other, ch }, conn) == (
            game,
            Seq::<MpscEvent>::empty(),
        ),
        game.has_handle(other) ==> game.step(MpscWire::Send { conn: other, ch }, conn)
            == game.send(other, ch),
        !game.has_handle(conn) ==> game.step(MpscWire::CloneSender { conn: other }, conn) == (
            game,
            Seq::<MpscEvent>::empty(),
        ),
        game.has_handle(conn) && !game.has_handle(other) ==> {
            let (after, said) = game.step(MpscWire::CloneSender { conn: other }, conn);
            &&& after.handles == game.handles.push(Handle { conn: other, owner: conn })
            &&& said == seq![MpscEvent::SenderJoined { conn: other, owner: conn }]
        },
        game.step(MpscWire::Receive, conn) == game.receive(),
{
}

/// A handle joins once, behind the others, and moves no value.
pub proof fn law_handle_joins_once(game: MpscGame, conn: u64, owner: u64)
    ensures
        ({
            let (after, said) = game.join(conn, owner);
            &&& after.has_handle(conn)
            &&& after.line == game.line
            &&& after.landings == game.landings
            &&& after.pending_receives == game.pending_receives
            &&& after.last_received == game.last_received
            &&& game.has_handle(conn) ==> after == game && said.len() == 0
            &&& !game.has_handle(conn) ==> after.handles == game.handles.push(
                Handle { conn, owner },
            ) && said == seq![MpscEvent::SenderJoined { conn, owner }]
            &&& after.join(conn, owner) == (after, Seq::<MpscEvent>::empty())
        }),
{
    let after = game.join(conn, owner).0;
    if !game.has_handle(conn) {
        assert(after.handles[game.handles.len() as int].conn == conn);
    }
}

proof fn lemma_not_from_is_a_filter(values: Seq<BufferChar>, conn: u64)
    ensures
        not_from(values, conn) == values.filter(|value: BufferChar| value.conn != conn),
    decreases values.len(),
{
    reveal(Seq::filter);
    if values.len() > 0 {
        lemma_not_from_is_a_filter(values.drop_last(), conn);
    }
}

proof fn lemma_without_handle(handles: Seq<Handle>, conn: u64)
    ensures
        without_handle(handles, conn) == handles.filter(|handle: Handle| handle.conn != conn),
    decreases handles.len(),
{
    reveal(Seq::filter);
    if handles.len() > 0 {
        lemma_without_handle(handles.drop_last(), conn);
    }
}

/// Dropping a handle hands back what it had blocked and nothing else: what it
/// had sent into the buffer stays to be received, everyone else's values and
/// handles stay in their order, and a handle that is not there drops nothing.
pub proof fn law_leaving_hands_back_blocked_sends(game: MpscGame, conn: u64)
    requires
        game.pending_receives == 0,
    ensures
        ({
            let (after, said) = game.leave(conn);
            &&& !game.has_handle(conn) ==> after == game && said.len() == 0
            &&& game.has_handle(conn) ==> {
                &&& after.handles == game.handles.filter(|handle: Handle| handle.conn != conn)
                &&& after.line == game.buffered() + game.blocked().filter(
                    |value: BufferChar| value.conn != conn,
                )
                &&& after.landings == game.landings
                &&& said == seq![MpscEvent::SenderLeft { conn }]
            }
            &&& after.pending_receives == 0
            &&& after.last_received == game.last_received
        }),
{
    if game.has_handle(conn) {
        lemma_not_from_is_a_filter(game.blocked(), conn);
        lemma_without_handle(game.handles, conn);
        let left = MpscGame {
            handles: without_handle(game.handles, conn),
            line: game.buffered() + not_from(game.blocked(), conn),
            ..game
        };
        assert(left.waking() =~= Seq::empty());
        assert(left.line.skip(0) =~= left.line);
        assert(left.settle().0.landings =~= left.landings);
        assert(left.settle().1 =~= Seq::<MpscEvent>::empty());
        assert(game.leave(conn).1 =~= seq![MpscEvent::SenderLeft { conn }]);
    }
}

proof fn lemma_due_count(landings: Seq<Landing>, now: nat)
    ensures
        due_count(landings, now) <= landings.len(),
        forall|i: int|
            0 <= i < due_count(landings, now) ==> (#[trigger] landings[i]).due <= now,
        due_count(landings, now) < landings.len() ==> landings[due_count(
            landings,
            now,
        ) as int].due > now,
    decreases landings.len(),
{
    if landings.len() > 0 && landings[0].due <= now {
        let rest = landings.drop_first();
        lemma_due_count(rest, now);
        assert forall|i: int| 0 <= i < due_count(landings, now) implies (
        #[trigger] landings[i]).due <= now by {
            if i > 0 {
                assert(rest[i - 1] == landings[i]);
            }
        }
    }
}

/// The flights whose time has come land, in the order in which they took off,
/// and are announced; the first that is not due stays in the air, and all
/// behind it. While no receive is owed, landing moves nothing else.
pub proof fn law_flights_land_when_due(game: MpscGame)
    ensures
        ({
            let (after, said) = game.land();
            let n = due_count(game.landings, game.now);
            &&& n <= game.landings.len()
            &&& forall|i: int| 0 <= i < n ==> (#[trigger] game.landings[i]).due <= game.now
            &&& n < game.landings.len() ==> game.landings[n as int].due > game.now
            &&& n == 0 ==> after == game && said.len() == 0
            &&& after.handles == game.handles
            &&& game.pending_receives == 0 ==> {
                &&& after.line == game.line
                &&& after.last_received == game.last_received
                &&& after.pending_receives == 0
                &&& after.landings == game.landings.skip(n as int)
                &&& said.len() == n
                &&& forall|i: int|
                    0 <= i < n ==> #[trigger] said[i] == (MpscEvent::Consumed {
                        conn: game.landings[i].conn,
                        ch: game.landings[i].ch,
                    })
            }
        }),
{
    lemma_due_count(game.landings, game.now);
    let n = due_count(game.landings, game.now);
    let aloft = MpscGame { landings: game.landings.skip(n as int), ..game };
    if game.pending_receives == 0 {
        assert(aloft.waking() =~= Seq::empty());
        assert(aloft.line.skip(0) =~= aloft.line);
        assert(aloft.settle().0.landings =~= aloft.landings);
        assert(game.landings.skip(0) =~= game.landings);
    }
}

/// A receive that was owed is served by what lands next: serving takes the
/// oldest values, as many as are owed and there, remembers the last of them,
/// and lets as many blocked sends take off.
pub proof fn law_owed_receives_are_served(game: MpscGame)
    ensures
        ({
            let (after, said) = game.settle();
            let served = if game.pending_receives <= game.line.len() {
                game.pending_receives
            } else {
                game.line.len()
            };
            &&& after.line == game.line.skip(served as int)
            &&& after.pending_receives + served == game.pending_receives
            &&& served > 0 ==> after.last_received == Some(game.line[served - 1])
            &&& served == 0 ==> after.last_received == game.last_received
            &&& after.handles == game.handles
            &&& after.landings.len() == game.landings.len() + said.len()
            &&& game.landings.is_prefix_of(after.landings)
            &&& said.len() <= served
            &&& said.len() == served || said.len() == game.blocked().len()
            &&& forall|i: int|
                0 <= i < said.len() ==> #[trigger] said[i] == (MpscEvent::InFlight {
                    conn: game.blocked()[i].conn,
                    ch: game.blocked()[i].ch,
                })
            &&& forall|i: int|
                0 <= i < said.len() ==> {
                    let flight = #[trigger] after.landings[game.landings.len() + i];
                    &&& flight.conn == game.blocked()[i].conn
                    &&& flight.ch == game.blocked()[i].ch
                    &&& flight.due == (game.now + game.flight_ms) as u64
                }
        }),
{
}

/// A fresh game is empty, and shows so.
pub proof fn law_fresh_game_is_empty(flight_ms: nat, shown: MpscSnapshot)
    requires
        MpscGame::fresh(flight_ms).shown_by(shown),
    ensures
        shown.senders@.len() == 0,
        shown.buffer@.len() == 0,
        shown.blocked_sends@.len() == 0,
        shown.in_flight == 0,
        !shown.waiting_receive,
        shown.last_received is None,
        MpscGame::fresh(flight_ms).flight_ms == flight_ms,
{
}

} // verus!

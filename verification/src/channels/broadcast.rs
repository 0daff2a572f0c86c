//! A broadcast channel: every value is delivered to *every* receiver, each
//! with its own cursor.
//!
//! The channel keeps a ring of the most recent values. A receiver that falls
//! further behind than the capacity is told how many values it missed on its
//! next receive and skips to the oldest retained value. A send never blocks;
//! it fails only when no receivers remain, handing the value back.
//!
//! The model of a channel is its whole history, [`BroadcastState::sent`]: the
//! ring is the end of it, and a cursor is a position in it.

use std::collections::VecDeque;

use vstd::prelude::*;

use super::waiter::{Round, WaiterId, WaiterIds};

verus! {

/// One receiver slot inside the core: the next sequence number this receiver
/// has not seen yet.
#[derive(Debug, Clone, Copy)]
pub struct Slot {
    pub next_seq: u64,
    pub waiting: Option<WaiterId>,
    pub alive: bool,
}

/// The channel as a mathematical value.
#[verifier::ext_equal]
pub struct BroadcastState<T> {
    pub capacity: nat,
    /// Every value ever sent, oldest first. The value at position `n` has
    /// sequence number `n`.
    pub sent: Seq<T>,
    pub senders: nat,
    pub slots: Seq<Slot>,
    /// Waiter ids handed out so far.
    pub issued: nat,
}

/// How many of these slots hold a live receiver.
pub open spec fn live_count(slots: Seq<Slot>) -> nat
    decreases slots.len(),
{
    if slots.len() == 0 {
        0
    } else {
        live_count(slots.drop_last()) + if slots.last().alive {
            1nat
        } else {
            0
        }
    }
}

/// The first slot without a live receiver; the number of slots if there is
/// none.
pub open spec fn free_slot(slots: Seq<Slot>) -> int
    decreases slots.len(),
{
    if slots.len() == 0 {
        0
    } else {
        let before = free_slot(slots.drop_last());
        if before < slots.len() - 1 || !slots.last().alive {
            before
        } else {
            slots.len() as int
        }
    }
}

impl<T> BroadcastState<T> {
    /// Sequence number the next value will get: how many were sent.
    pub open spec fn tail(self) -> nat {
        self.sent.len()
    }

    /// Sequence number of the oldest value that is still retained; the tail
    /// if none is.
    pub open spec fn oldest(self) -> nat {
        if self.sent.len() > self.capacity {
            (self.sent.len() - self.capacity) as nat
        } else {
            0
        }
    }

    /// The retained values, oldest first.
    pub open spec fn ring(self) -> Seq<T> {
        self.sent.skip(self.oldest() as int)
    }

    /// True if `id` names a live receiver.
    pub open spec fn live(self, id: int) -> bool {
        0 <= id < self.slots.len() && self.slots[id].alive
    }

    /// The next sequence number that receiver `id` has not seen.
    pub open spec fn cursor(self, id: int) -> nat {
        self.slots[id].next_seq as nat
    }

    /// Number of live receivers.
    pub open spec fn receivers(self) -> nat {
        live_count(self.slots)
    }

    /// What every operation keeps: there is room for a value, and no cursor
    /// is ahead of the tail.
    pub open spec fn wf(self) -> bool {
        &&& 1 <= self.capacity
        &&& self.sent.len() <= u64::MAX
        &&& forall|id: int| 0 <= id < self.slots.len()
            ==> (#[trigger] self.slots[id]).next_seq <= self.sent.len()
    }

    /// The state with another slot in place of `id`'s.
    pub open spec fn with_slot(self, id: int, slot: Slot) -> Self {
        BroadcastState { slots: self.slots.update(id, slot), ..self }
    }

    /// Receiver `id` stands at `cursor` and waits for nothing.
    pub open spec fn move_cursor(self, id: int, cursor: nat) -> Self {
        self.with_slot(id, Slot { next_seq: cursor as u64, waiting: None, alive: true })
    }

    /// A receiver that starts at `cursor` was added: it takes the first free
    /// slot.
    pub open spec fn with_receiver(self, cursor: nat) -> Self {
        let slot = Slot { next_seq: cursor as u64, waiting: None, alive: true };
        if free_slot(self.slots) < self.slots.len() {
            self.with_slot(free_slot(self.slots), slot)
        } else {
            BroadcastState { slots: self.slots.push(slot), ..self }
        }
    }
}

/// What a receive gives a receiver.
pub enum Receipt {
    /// The value with this sequence number.
    Value { seq: nat },
    /// Nothing but the news that this many values were missed.
    Lagged { skipped: nat },
    /// Nothing yet.
    Empty,
    /// Nothing any more.
    Closed,
}

/// A call on a channel.
pub enum BroadcastOp<T> {
    Send(T),
    AddSender,
    DropSender,
    Subscribe,
    CloneReceiver(int),
    DropReceiver(int),
    PollRecv(int),
    PollRecvWait(int, WaiterId),
    TryRecv(int),
}

impl<T> BroadcastOp<T> {
    /// Whether the call is a receive of receiver `id`.
    pub open spec fn receives(self, id: int) -> bool {
        match self {
            BroadcastOp::PollRecv(receiver) => receiver == id,
            BroadcastOp::PollRecvWait(receiver, _) => receiver == id,
            BroadcastOp::TryRecv(receiver) => receiver == id,
            _ => false,
        }
    }
}

impl<T> BroadcastState<T> {
    /// What a receive gives receiver `id`, whichever call makes it.
    pub open spec fn receipt(self, id: int) -> Receipt {
        if !self.live(id) {
            Receipt::Closed
        } else if self.cursor(id) < self.oldest() {
            Receipt::Lagged { skipped: (self.oldest() - self.cursor(id)) as nat }
        } else if self.cursor(id) < self.tail() {
            Receipt::Value { seq: self.cursor(id) }
        } else if self.senders > 0 {
            Receipt::Empty
        } else {
            Receipt::Closed
        }
    }

    /// The state after a receive of receiver `id` that does not wait.
    pub open spec fn taken(self, id: int) -> Self {
        match self.receipt(id) {
            Receipt::Value { seq } => self.move_cursor(id, seq + 1),
            Receipt::Lagged { .. } => self.move_cursor(id, self.oldest()),
            _ => if self.live(id) {
                self.move_cursor(id, self.cursor(id))
            } else {
                self
            },
        }
    }

    /// Receiver `id` waits as `waiter`.
    pub open spec fn waits(self, id: int, waiter: WaiterId) -> Self {
        self.with_slot(id, Slot { waiting: Some(waiter), ..self.slots[id] })
    }

    /// The state after a call.
    pub open spec fn after(self, op: BroadcastOp<T>) -> Self {
        match op {
            BroadcastOp::Send(value) => if self.receivers() > 0 {
                BroadcastState { sent: self.sent.push(value), ..self }
            } else {
                self
            },
            BroadcastOp::AddSender => BroadcastState { senders: self.senders + 1, ..self },
            BroadcastOp::DropSender => BroadcastState {
                senders: if self.senders == 0 {
                    0
                } else {
                    (self.senders - 1) as nat
                },
                ..self
            },
            BroadcastOp::Subscribe => self.with_receiver(self.tail()),
            BroadcastOp::CloneReceiver(source) => if self.live(source) {
                self.with_receiver(self.cursor(source))
            } else {
                self
            },
            BroadcastOp::DropReceiver(id) => if self.live(id) {
                self.with_slot(id, Slot { waiting: None, alive: false, ..self.slots[id] })
            } else {
                self
            },
            BroadcastOp::PollRecv(id) => match (self.receipt(id), self.slots[id].waiting) {
                (Receipt::Empty, Some(_)) => self,
                (Receipt::Empty, None) => BroadcastState {
                    issued: self.issued + 1,
                    ..self.waits(id, WaiterId((self.issued + 1) as u64))
                },
                _ => self.taken(id),
            },
            BroadcastOp::PollRecvWait(id, waiter) => match self.receipt(id) {
                Receipt::Empty => self.waits(id, waiter),
                _ => self.taken(id),
            },
            BroadcastOp::TryRecv(id) => self.taken(id),
        }
    }

    /// The values that a call publishes: that of a send which reaches
    /// somebody.
    pub open spec fn publishes(self, op: BroadcastOp<T>) -> Seq<T> {
        match op {
            BroadcastOp::Send(value) if self.receivers() > 0 => seq![value],
            _ => Seq::empty(),
        }
    }
}

/// The pure state machine behind a broadcast channel.
pub struct BroadcastCore<T> {
    capacity: usize,
    ring: VecDeque<T>,
    next_seq: u64,
    senders: usize,
    slots: Vec<Slot>,
    live_receivers: usize,
    waiters: WaiterIds,
    sent: Ghost<Seq<T>>,
}

/// Outcome of the core receive polls: the predicate behind a blocking `recv`.
#[derive(Debug, PartialEq, Eq)]
pub enum BroadcastPoll<T> {
    /// The receiver's next value, taken from the ring.
    Value(T),
    /// The receiver is caught up; keep waiting with this identity.
    Empty { waiter: WaiterId },
    /// The receiver fell behind the ring; it skipped this many values and now
    /// starts at the oldest retained one.
    Lagged { skipped: u64 },
    /// No senders remain and the receiver is caught up, or the receiver is
    /// not alive.
    Closed,
}

impl<T> BroadcastPoll<T> {
    /// Whether this is the outcome of a poll with the given receipt.
    pub open spec fn reports(self, receipt: Receipt) -> bool {
        match (self, receipt) {
            (BroadcastPoll::Value(_), Receipt::Value { .. }) => true,
            (BroadcastPoll::Empty { .. }, Receipt::Empty) => true,
            (BroadcastPoll::Lagged { skipped }, Receipt::Lagged { skipped: missed }) => skipped
                == missed,
            (BroadcastPoll::Closed, Receipt::Closed) => true,
            _ => false,
        }
    }
}

/// Whether this is the outcome of a receive attempt with the given receipt.
pub open spec fn attempt_reports<T>(result: Result<T, TryRecvError>, receipt: Receipt) -> bool {
    match (result, receipt) {
        (Ok(_), Receipt::Value { .. }) => true,
        (Err(TryRecvError::Empty), Receipt::Empty) => true,
        (Err(TryRecvError::Lagged(skipped)), Receipt::Lagged { skipped: missed }) => skipped
            == missed,
        (Err(TryRecvError::Closed), Receipt::Closed) => true,
        _ => false,
    }
}

/// A send failed because no receivers remain; the value comes back.
#[derive(Debug, PartialEq, Eq)]
pub struct SendError<T>(pub T);

/// A blocking receive failed.
#[derive(Debug, Clone, Copy, PartialEq, Eq, Structural)]
pub enum RecvError {
    /// Every sender is gone and the receiver is caught up.
    Closed,
    /// The receiver fell behind by this many values and skipped them.
    Lagged(u64),
}

/// [`BroadcastCore::try_recv`] failed.
#[derive(Debug, Clone, Copy, PartialEq, Eq, Structural)]
pub enum TryRecvError {
    /// No new value yet, and senders may still send.
    Empty,
    /// Every sender is gone and the receiver is caught up.
    Closed,
    /// The receiver fell behind by this many values and skipped them.
    Lagged(u64),
}

/// What a receive finds at a receiver's cursor.
enum Found {
    Gone,
    Lagged { skipped: u64 },
    CaughtUp { parked: Option<WaiterId> },
    At { index: usize },
}

impl<T> View for BroadcastCore<T> {
    type V = BroadcastState<T>;

    closed spec fn view(&self) -> BroadcastState<T> {
        BroadcastState {
            capacity: self.capacity as nat,
            sent: self.sent@,
            senders: self.senders as nat,
            slots: self.slots@,
            issued: self.waiters.next as nat,
        }
    }
}

impl<T> BroadcastCore<T> {
    /// The invariant that every operation keeps.
    pub closed spec fn wf(&self) -> bool {
        &&& self@.wf()
        &&& self.ring@ == self@.ring()
        &&& self.next_seq == self@.tail()
        &&& self.live_receivers == self@.receivers()
    }

    /// The invariant of the model is part of the core's.
    pub proof fn lemma_wf(&self)
        requires
            self.wf(),
        ensures
            self@.wf(),
    {
    }

    /// How many waits this channel has ever handed out an id for.
    pub fn issued(&self) -> (issued: u64)
        ensures
            issued == self@.issued,
    {
        self.waiters.next
    }

    /// A channel keeping the most recent `capacity` values, with one sender
    /// and no receiver.
    pub fn new(capacity: usize) -> (core: Self)
        requires
            capacity >= 1,
        ensures
            core.wf(),
            core@ == (BroadcastState::<T> {
                capacity: capacity as nat,
                sent: Seq::empty(),
                senders: 1,
                slots: Seq::empty(),
                issued: 0,
            }),
    {
        let core = BroadcastCore {
            capacity,
            ring: VecDeque::new(),
            next_seq: 0,
            senders: 1,
            slots: Vec::new(),
            live_receivers: 0,
            waiters: WaiterIds { next: 0 },
            sent: Ghost(Seq::empty()),
        };
        assert(core.ring@ =~= core@.ring());
        core
    }

    /// Publish a value to every receiver. Returns the number of receivers
    /// that will see it, or the value back when nobody is listening.
    pub fn send(&mut self, value: T) -> (result: Result<usize, SendError<T>>)
        requires
            old(self).wf(),
            old(self)@.tail() < u64::MAX,
        ensures
            final(self).wf(),
            final(self)@ == old(self)@.after(BroadcastOp::Send(value)),
            match result {
                Ok(reached) => {
                    &&& old(self)@.receivers() > 0
                    &&& reached == old(self)@.receivers()
                    &&& final(self)@ == (BroadcastState {
                        sent: old(self)@.sent.push(value),
                        ..old(self)@
                    })
                },
                Err(SendError(back)) => {
                    &&& old(self)@.receivers() == 0
                    &&& back == value
                    &&& final(self)@ == old(self)@
                },
            },
    {
        if self.live_receivers == 0 {
            return Err(SendError(value));
        }
        if self.ring.len() >= self.capacity {
            self.ring.pop_front();
        }
        self.ring.push_back(value);
        self.next_seq = self.next_seq + 1;
        proof {
            self.sent@ = self.sent@.push(value);
            assert(self.ring@ =~= self@.ring());
        }
        Ok(self.live_receivers)
    }

    /// Add a sender handle (clone).
    pub fn add_sender(&mut self)
        requires
            old(self).wf(),
            old(self)@.senders < usize::MAX,
        ensures
            final(self).wf(),
            final(self)@ == old(self)@.after(BroadcastOp::AddSender),
            final(self)@ == (BroadcastState { senders: old(self)@.senders + 1, ..old(self)@ }),
    {
        self.senders = self.senders + 1;
    }

    /// Drop a sender handle.
    pub fn drop_sender(&mut self)
        requires
            old(self).wf(),
        ensures
            final(self).wf(),
            final(self)@ == old(self)@.after(BroadcastOp::DropSender),
            final(self)@ == (BroadcastState {
                senders: if old(self)@.senders == 0 {
                    0
                } else {
                    (old(self)@.senders - 1) as nat
                },
                ..old(self)@
            }),
    {
        if self.senders > 0 {
            self.senders = self.senders - 1;
        }
    }

    /// Subscribe a receiver starting at the *current* tail: new receivers
    /// never see history.
    pub fn subscribe(&mut self) -> (id: usize)
        requires
            old(self).wf(),
            old(self)@.receivers() < usize::MAX,
        ensures
            final(self).wf(),
            final(self)@ == old(self)@.after(BroadcastOp::Subscribe),
            id == free_slot(old(self)@.slots),
            final(self)@ == old(self)@.with_receiver(old(self)@.tail()),
            final(self)@.live(id as int),
            final(self)@.receivers() == old(self)@.receivers() + 1,
    {
        let cursor: u64 = self.next_seq;
        self.add_slot(cursor)
    }

    /// Clone a receiver: the clone continues from the source's position.
    /// There is none to clone unless `source` is alive.
    pub fn clone_receiver(&mut self, source: usize) -> (clone: Option<usize>)
        requires
            old(self).wf(),
            old(self)@.receivers() < usize::MAX,
        ensures
            final(self).wf(),
            final(self)@ == old(self)@.after(BroadcastOp::CloneReceiver(source as int)),
            match clone {
                Some(id) => {
                    &&& old(self)@.live(source as int)
                    &&& id == free_slot(old(self)@.slots)
                    &&& final(self)@ == old(self)@.with_receiver(old(self)@.cursor(source as int))
                    &&& final(self)@.live(id as int)
                    &&& final(self)@.receivers() == old(self)@.receivers() + 1
                },
                None => !old(self)@.live(source as int) && final(self)@ == old(self)@,
            },
    {
        if source >= self.slots.len() || !self.slots[source].alive {
            return None;
        }
        let cursor: u64 = self.slots[source].next_seq;
        Some(self.add_slot(cursor))
    }

    /// Drop a receiver slot. Dropping one that is not alive changes nothing.
    pub fn drop_receiver(&mut self, id: usize)
        requires
            old(self).wf(),
        ensures
            final(self).wf(),
            final(self)@ == old(self)@.after(BroadcastOp::DropReceiver(id as int)),
            final(self)@ == if old(self)@.live(id as int) {
                old(self)@.with_slot(
                    id as int,
                    Slot { waiting: None, alive: false, ..old(self)@.slots[id as int] },
                )
            } else {
                old(self)@
            },
            final(self)@.receivers() == if old(self)@.live(id as int) {
                old(self)@.receivers() - 1
            } else {
                old(self)@.receivers() as int
            },
    {
        if id < self.slots.len() && self.slots[id].alive {
            let slot = Slot {
                next_seq: self.slots[id].next_seq,
                waiting: None,
                alive: false,
            };
            proof {
                lemma_count_update(self.slots@, id as int, slot);
            }
            self.slots.set(id, slot);
            self.live_receivers = self.live_receivers - 1;
        }
    }

    fn add_slot(&mut self, next_seq: u64) -> (id: usize)
        requires
            old(self).wf(),
            old(self)@.receivers() < usize::MAX,
            next_seq <= old(self)@.tail(),
        ensures
            final(self).wf(),
            id == free_slot(old(self)@.slots),
            final(self)@ == old(self)@.with_receiver(next_seq as nat),
            final(self)@.live(id as int),
            final(self)@.receivers() == old(self)@.receivers() + 1,
    {
        let slot = Slot { next_seq, waiting: None, alive: true };
        proof {
            lemma_count_bound(self.slots@);
        }
        let mut id: usize = 0;
        assert(self.slots@.take(0) =~= Seq::empty());
        while id < self.slots.len() && self.slots[id].alive
            invariant
                id <= self.slots.len(),
                free_slot(self.slots@.take(id as int)) == id,
            decreases self.slots.len() - id,
        {
            assert(self.slots@.take(id + 1).drop_last() =~= self.slots@.take(id as int));
            id = id + 1;
        }
        if id < self.slots.len() {
            proof {
                assert(self.slots@.take(id + 1).drop_last() =~= self.slots@.take(id as int));
                lemma_free_prefix(self.slots@, id + 1);
                lemma_count_update(self.slots@, id as int, slot);
            }
            self.slots.set(id, slot);
        } else {
            assert(self.slots@.take(id as int) =~= self.slots@);
            self.slots.push(slot);
            assert(self.slots@.drop_last() =~= old(self).slots@);
        }
        proof {
            lemma_count_bound(self.slots@);
        }
        self.live_receivers = self.live_receivers + 1;
        id
    }

    /// What a receive finds at `id`'s cursor.
    fn find(&self, id: usize) -> (found: Found)
        requires
            self.wf(),
        ensures
            match found {
                Found::Gone => !self@.live(id as int),
                Found::Lagged { skipped } => {
                    &&& self@.live(id as int)
                    &&& self@.cursor(id as int) < self@.oldest()
                    &&& skipped == self@.oldest() - self@.cursor(id as int)
                },
                Found::CaughtUp { parked } => {
                    &&& self@.live(id as int)
                    &&& self@.cursor(id as int) == self@.tail()
                    &&& parked == self@.slots[id as int].waiting
                },
                Found::At { index } => {
                    &&& self@.live(id as int)
                    &&& self@.oldest() <= self@.cursor(id as int) < self@.tail()
                    &&& index < self.ring@.len()
                    &&& self.ring@[index as int] == self@.sent[self@.cursor(id as int) as int]
                },
            },
    {
        if id >= self.slots.len() || !self.slots[id].alive {
            return Found::Gone;
        }
        let cursor: u64 = self.slots[id].next_seq;
        let oldest: u64 = self.next_seq - self.ring.len() as u64;
        if cursor < oldest {
            Found::Lagged { skipped: oldest - cursor }
        } else if cursor == self.next_seq {
            Found::CaughtUp { parked: self.slots[id].waiting }
        } else {
            Found::At { index: (cursor - oldest) as usize }
        }
    }

    /// Put receiver `id` at `next_seq`, waiting as `waiting` says.
    fn place(&mut self, id: usize, next_seq: u64, waiting: Option<WaiterId>)
        requires
            old(self).wf(),
            old(self)@.live(id as int),
            next_seq <= old(self)@.tail(),
        ensures
            final(self).wf(),
            final(self)@ == old(self)@.with_slot(id as int, Slot { next_seq, waiting, alive: true }),
            final(self)@.receivers() == old(self)@.receivers(),
            final(self).ring == old(self).ring,
    {
        let slot = Slot { next_seq, waiting, alive: true };
        proof {
            lemma_count_update(self.slots@, id as int, slot);
        }
        self.slots.set(id, slot);
    }

    /// True once the last sender handle is gone.
    pub fn is_closed(&self) -> (closed: bool)
        ensures
            closed == (self@.senders == 0),
    {
        self.senders == 0
    }

    /// Ring capacity.
    pub fn capacity(&self) -> (capacity: usize)
        ensures
            capacity == self@.capacity,
    {
        self.capacity
    }

    /// Values currently retained in the ring.
    pub fn len(&self) -> (len: usize)
        requires
            self.wf(),
        ensures
            len == self@.ring().len(),
    {
        self.ring.len()
    }

    /// True when the ring holds no values.
    pub fn is_empty(&self) -> (empty: bool)
        requires
            self.wf(),
        ensures
            empty == (self@.ring().len() == 0),
    {
        self.ring.len() == 0
    }

    /// Sequence number the next sent value will get.
    pub fn next_seq(&self) -> (seq: u64)
        requires
            self.wf(),
        ensures
            seq == self@.tail(),
    {
        self.next_seq
    }

    /// Number of live sender handles.
    pub fn sender_count(&self) -> (count: usize)
        ensures
            count == self@.senders,
    {
        self.senders
    }

    /// Number of live receiver handles.
    pub fn receiver_count(&self) -> (count: usize)
        requires
            self.wf(),
        ensures
            count == self@.receivers(),
    {
        self.live_receivers
    }

    /// The receiver's cursor position, if it is alive.
    pub fn receiver_seq(&self, id: usize) -> (seq: Option<u64>)
        ensures
            seq == if self@.live(id as int) {
                Some(self@.slots[id as int].next_seq)
            } else {
                None
            },
    {
        if id < self.slots.len() && self.slots[id].alive {
            Some(self.slots[id].next_seq)
        } else {
            None
        }
    }

    /// The identity under which a receiver waits, if it is alive and waits.
    pub fn receiver_waiting(&self, id: usize) -> (waiter: Option<WaiterId>)
        ensures
            waiter == if self@.live(id as int) {
                self@.slots[id as int].waiting
            } else {
                None
            },
    {
        if id < self.slots.len() && self.slots[id].alive {
            self.slots[id].waiting
        } else {
            None
        }
    }
}

impl<T: Copy> BroadcastCore<T> {
    /// The retained values with their sequence numbers, oldest first.
    pub fn ring(&self) -> (ring: Vec<(u64, T)>)
        requires
            self.wf(),
        ensures
            ring@ == Seq::new(
                self@.ring().len(),
                |i: int| ((self@.oldest() + i) as u64, self@.ring()[i]),
            ),
    {
        let oldest: u64 = self.next_seq - self.ring.len() as u64;
        let mut ring: Vec<(u64, T)> = Vec::new();
        let mut i: usize = 0;
        while i < self.ring.len()
            invariant
                self.wf(),
                i <= self.ring.len(),
                oldest == self@.oldest(),
                ring@ == Seq::new(
                    i as nat,
                    |i: int| ((self@.oldest() + i) as u64, self@.ring()[i]),
                ),
            decreases self.ring.len() - i,
        {
            ring.push((oldest + i as u64, self.ring[i]));
            i = i + 1;
            assert(ring@ =~= Seq::new(
                i as nat,
                |i: int| ((self@.oldest() + i) as u64, self@.ring()[i]),
            ));
        }
        ring
    }
}

impl<T: Clone> BroadcastCore<T> {
    /// Poll a receiver, registering it as waiting when caught up.
    pub fn poll_recv(&mut self, id: usize) -> (poll: BroadcastPoll<T>)
        requires
            old(self).wf(),
            old(self)@.issued < u64::MAX,
        ensures
            final(self).wf(),
            final(self)@ == old(self)@.after(BroadcastOp::PollRecv(id as int)),
            poll.reports(old(self)@.receipt(id as int)),
            final(self)@.receivers() == old(self)@.receivers(),
            ({
                let before = old(self)@;
                let id = id as int;
                match poll {
                    BroadcastPoll::Closed => {
                        &&& before.live(id) ==> before.cursor(id) == before.tail()
                            && before.senders == 0
                        &&& final(self)@ == if before.live(id) {
                            before.move_cursor(id, before.cursor(id))
                        } else {
                            before
                        }
                    },
                    BroadcastPoll::Lagged { skipped } => {
                        &&& before.live(id)
                        &&& before.cursor(id) < before.oldest()
                        &&& skipped == before.oldest() - before.cursor(id)
                        &&& final(self)@ == before.move_cursor(id, before.oldest())
                    },
                    BroadcastPoll::Empty { waiter } => {
                        &&& before.live(id)
                        &&& before.cursor(id) == before.tail()
                        &&& before.senders > 0
                        &&& match before.slots[id].waiting {
                            Some(parked) => waiter == parked && final(self)@ == before,
                            None => {
                                &&& waiter.0 == before.issued + 1
                                &&& final(self)@ == (BroadcastState {
                                    issued: before.issued + 1,
                                    ..before.with_slot(
                                        id,
                                        Slot { waiting: Some(waiter), ..before.slots[id] },
                                    )
                                })
                            },
                        }
                    },
                    BroadcastPoll::Value(value) => {
                        &&& before.live(id)
                        &&& before.oldest() <= before.cursor(id) < before.tail()
                        &&& cloned(before.sent[before.cursor(id) as int], value)
                        &&& final(self)@ == before.move_cursor(id, before.cursor(id) + 1)
                    },
                }
            }),
    {
        match self.find(id) {
            Found::CaughtUp { parked } if self.senders > 0 => {
                let waiter = match parked {
                    Some(waiter) => waiter,
                    None => self.waiters.allocate(),
                };
                let cursor: u64 = self.next_seq;
                self.place(id, cursor, Some(waiter));
                assert(self@ =~= (BroadcastState {
                    issued: self@.issued,
                    ..old(self)@.with_slot(
                        id as int,
                        Slot { waiting: Some(waiter), ..old(self)@.slots[id as int] },
                    )
                }));
                BroadcastPoll::Empty { waiter }
            },
            found => self.settle(id, found),
        }
    }

    /// Re-check a waiting receiver's poll, which keeps waiting as `waiter`.
    pub fn poll_recv_wait(&mut self, id: usize, waiter: WaiterId) -> (poll: BroadcastPoll<T>)
        requires
            old(self).wf(),
        ensures
            final(self).wf(),
            final(self)@ == old(self)@.after(BroadcastOp::PollRecvWait(id as int, waiter)),
            poll.reports(old(self)@.receipt(id as int)),
            final(self)@.receivers() == old(self)@.receivers(),
            ({
                let before = old(self)@;
                let id = id as int;
                match poll {
                    BroadcastPoll::Closed => {
                        &&& before.live(id) ==> before.cursor(id) == before.tail()
                            && before.senders == 0
                        &&& final(self)@ == if before.live(id) {
                            before.move_cursor(id, before.cursor(id))
                        } else {
                            before
                        }
                    },
                    BroadcastPoll::Lagged { skipped } => {
                        &&& before.live(id)
                        &&& before.cursor(id) < before.oldest()
                        &&& skipped == before.oldest() - before.cursor(id)
                        &&& final(self)@ == before.move_cursor(id, before.oldest())
                    },
                    BroadcastPoll::Empty { waiter: kept } => {
                        &&& before.live(id)
                        &&& before.cursor(id) == before.tail()
                        &&& before.senders > 0
                        &&& kept == waiter
                        &&& final(self)@ == before.with_slot(
                            id,
                            Slot { waiting: Some(waiter), ..before.slots[id] },
                        )
                    },
                    BroadcastPoll::Value(value) => {
                        &&& before.live(id)
                        &&& before.oldest() <= before.cursor(id) < before.tail()
                        &&& cloned(before.sent[before.cursor(id) as int], value)
                        &&& final(self)@ == before.move_cursor(id, before.cursor(id) + 1)
                    },
                }
            }),
    {
        match self.find(id) {
            Found::CaughtUp { .. } if self.senders > 0 => {
                let cursor: u64 = self.next_seq;
                self.place(id, cursor, Some(waiter));
                BroadcastPoll::Empty { waiter }
            },
            found => self.settle(id, found),
        }
    }

    /// Carry out a receive that does not wait.
    fn settle(&mut self, id: usize, found: Found) -> (poll: BroadcastPoll<T>)
        requires
            old(self).wf(),
            match found {
                Found::Gone => !old(self)@.live(id as int),
                Found::Lagged { skipped } => {
                    &&& old(self)@.live(id as int)
                    &&& old(self)@.cursor(id as int) < old(self)@.oldest()
                    &&& skipped == old(self)@.oldest() - old(self)@.cursor(id as int)
                },
                Found::CaughtUp { .. } => {
                    &&& old(self)@.live(id as int)
                    &&& old(self)@.cursor(id as int) == old(self)@.tail()
                },
                Found::At { index } => {
                    &&& old(self)@.live(id as int)
                    &&& old(self)@.oldest() <= old(self)@.cursor(id as int) < old(self)@.tail()
                    &&& index < old(self).ring@.len()
                    &&& old(self).ring@[index as int]
                        == old(self)@.sent[old(self)@.cursor(id as int) as int]
                },
            },
        ensures
            final(self).wf(),
            final(self)@.receivers() == old(self)@.receivers(),
            match (found, poll) {
                (Found::Gone, BroadcastPoll::Closed) => final(self)@ == old(self)@,
                (Found::CaughtUp { .. }, BroadcastPoll::Closed) => final(self)@
                    == old(self)@.move_cursor(id as int, old(self)@.cursor(id as int)),
                (
                    Found::Lagged { skipped },
                    BroadcastPoll::Lagged { skipped: reported },
                ) => reported == skipped && final(self)@ == old(self)@.move_cursor(
                    id as int,
                    old(self)@.oldest(),
                ),
                (Found::At { .. }, BroadcastPoll::Value(value)) => {
                    &&& cloned(old(self)@.sent[old(self)@.cursor(id as int) as int], value)
                    &&& final(self)@ == old(self)@.move_cursor(
                        id as int,
                        old(self)@.cursor(id as int) + 1,
                    )
                },
                _ => false,
            },
    {
        match found {
            Found::Gone => BroadcastPoll::Closed,
            Found::Lagged { skipped } => {
                let cursor: u64 = self.slots[id].next_seq;
                self.place(id, cursor + skipped, None);
                BroadcastPoll::Lagged { skipped }
            },
            Found::CaughtUp { .. } => {
                let cursor: u64 = self.slots[id].next_seq;
                self.place(id, cursor, None);
                BroadcastPoll::Closed
            },
            Found::At { index } => {
                let cursor: u64 = self.slots[id].next_seq;
                let value = self.ring[index].clone();
                self.place(id, cursor + 1, None);
                BroadcastPoll::Value(value)
            },
        }
    }

    /// One round of a blocking receive; `waiter` is what it parked as in the
    /// round before, if there was one. Receiving frees nothing that others wait
    /// for, so no bell rings.
    pub fn recv_round(&mut self, id: usize, waiter: Option<WaiterId>) -> (round: Round<
        Result<T, RecvError>,
    >)
        requires
            old(self).wf(),
            old(self)@.issued < u64::MAX,
        ensures
            final(self).wf(),
            final(self)@ == old(self)@.after(
                match waiter {
                    Some(waiter) => BroadcastOp::PollRecvWait(id as int, waiter),
                    None => BroadcastOp::PollRecv(id as int),
                },
            ),
            ({
                let before = old(self)@;
                let id = id as int;
                match round {
                    Round::Done { result: Err(RecvError::Closed), bell } => {
                        &&& !bell
                        &&& before.live(id) ==> before.cursor(id) == before.tail()
                            && before.senders == 0
                        &&& final(self)@ == if before.live(id) {
                            before.move_cursor(id, before.cursor(id))
                        } else {
                            before
                        }
                    },
                    Round::Done { result: Err(RecvError::Lagged(skipped)), bell } => {
                        &&& !bell
                        &&& before.live(id)
                        &&& before.cursor(id) < before.oldest()
                        &&& skipped == before.oldest() - before.cursor(id)
                        &&& final(self)@ == before.move_cursor(id, before.oldest())
                    },
                    Round::Done { result: Ok(value), bell } => {
                        &&& !bell
                        &&& before.live(id)
                        &&& before.oldest() <= before.cursor(id) < before.tail()
                        &&& cloned(before.sent[before.cursor(id) as int], value)
                        &&& final(self)@ == before.move_cursor(id, before.cursor(id) + 1)
                    },
                    Round::Park { waiter: parked } => {
                        &&& before.live(id)
                        &&& before.cursor(id) == before.tail()
                        &&& before.senders > 0
                        &&& match (waiter, before.slots[id].waiting) {
                            (Some(waiter), _) => parked == waiter,
                            (None, Some(waiting)) => parked == waiting,
                            (None, None) => parked.0 == before.issued + 1,
                        }
                        &&& final(self)@ == (BroadcastState {
                            issued: final(self)@.issued,
                            ..before.with_slot(
                                id,
                                Slot { waiting: Some(parked), ..before.slots[id] },
                            )
                        })
                    },
                }
            }),
    {
        let poll = match waiter {
            Some(waiter) => self.poll_recv_wait(id, waiter),
            None => self.poll_recv(id),
        };
        match poll {
            BroadcastPoll::Value(value) => Round::Done { result: Ok(value), bell: false },
            BroadcastPoll::Lagged { skipped } => Round::Done {
                result: Err(RecvError::Lagged(skipped)),
                bell: false,
            },
            BroadcastPoll::Closed => Round::Done { result: Err(RecvError::Closed), bell: false },
            BroadcastPoll::Empty { waiter } => {
                assert(self@ =~= (BroadcastState {
                    issued: self@.issued,
                    ..old(self)@.with_slot(
                        id as int,
                        Slot { waiting: Some(waiter), ..old(self)@.slots[id as int] },
                    )
                }));
                Round::Park { waiter }
            },
        }
    }

    /// Take the receiver's next value without waiting. A receiver that fell
    /// behind reports [`TryRecvError::Lagged`] instead of a value.
    pub fn try_recv(&mut self, id: usize) -> (result: Result<T, TryRecvError>)
        requires
            old(self).wf(),
        ensures
            final(self).wf(),
            final(self)@ == old(self)@.after(BroadcastOp::TryRecv(id as int)),
            attempt_reports(result, old(self)@.receipt(id as int)),
            final(self)@.receivers() == old(self)@.receivers(),
            ({
                let before = old(self)@;
                let id = id as int;
                match result {
                    Err(TryRecvError::Closed) => {
                        &&& before.live(id) ==> before.cursor(id) == before.tail()
                            && before.senders == 0
                        &&& final(self)@ == if before.live(id) {
                            before.move_cursor(id, before.cursor(id))
                        } else {
                            before
                        }
                    },
                    Err(TryRecvError::Lagged(skipped)) => {
                        &&& before.live(id)
                        &&& before.cursor(id) < before.oldest()
                        &&& skipped == before.oldest() - before.cursor(id)
                        &&& final(self)@ == before.move_cursor(id, before.oldest())
                    },
                    Err(TryRecvError::Empty) => {
                        &&& before.live(id)
                        &&& before.cursor(id) == before.tail()
                        &&& before.senders > 0
                        &&& final(self)@ == before.move_cursor(id, before.cursor(id))
                    },
                    Ok(value) => {
                        &&& before.live(id)
                        &&& before.oldest() <= before.cursor(id) < before.tail()
                        &&& cloned(before.sent[before.cursor(id) as int], value)
                        &&& final(self)@ == before.move_cursor(id, before.cursor(id) + 1)
                    },
                }
            }),
    {
        let found = self.find(id);
        let caught_up = match found {
            Found::CaughtUp { .. } => true,
            _ => false,
        };
        match self.settle(id, found) {
            BroadcastPoll::Value(value) => Ok(value),
            BroadcastPoll::Lagged { skipped } => Err(TryRecvError::Lagged(skipped)),
            _ => if caught_up && self.senders > 0 {
                Err(TryRecvError::Empty)
            } else {
                Err(TryRecvError::Closed)
            },
        }
    }
}

/// Changing one slot changes the count by what that slot counts for.
proof fn lemma_count_update(slots: Seq<Slot>, id: int, slot: Slot)
    requires
        0 <= id < slots.len(),
    ensures
        live_count(slots.update(id, slot)) + (if slots[id].alive {
            1nat
        } else {
            0
        }) == live_count(slots) + (if slot.alive {
            1nat
        } else {
            0
        }),
    decreases slots.len(),
{
    let front = slots.drop_last();
    if id < slots.len() - 1 {
        lemma_count_update(front, id, slot);
        assert(slots.update(id, slot).drop_last() =~= front.update(id, slot));
    } else {
        assert(slots.update(id, slot).drop_last() =~= front);
    }
}

/// No more receivers are alive than there are slots.
proof fn lemma_count_bound(slots: Seq<Slot>)
    ensures
        live_count(slots) <= slots.len(),
    decreases slots.len(),
{
    if slots.len() > 0 {
        lemma_count_bound(slots.drop_last());
    }
}

/// A free slot found in a prefix is the first of all.
proof fn lemma_free_prefix(slots: Seq<Slot>, n: int)
    requires
        0 <= n <= slots.len(),
    ensures
        0 <= free_slot(slots.take(n)) <= n,
        free_slot(slots.take(n)) < n ==> free_slot(slots) == free_slot(slots.take(n)),
    decreases slots.len(),
{
    if n < slots.len() {
        lemma_free_prefix(slots.drop_last(), n);
        assert(slots.drop_last().take(n) =~= slots.take(n));
    } else {
        assert(slots.take(n) =~= slots);
        if n > 0 {
            lemma_free_prefix(slots.drop_last(), n - 1);
            assert(slots.drop_last().take(n - 1) =~= slots.drop_last());
        }
    }
}

/// The slot that a new receiver takes exists or is the next one, and no live
/// receiver holds it.
pub proof fn lemma_free_slot(slots: Seq<Slot>)
    ensures
        0 <= free_slot(slots) <= slots.len(),
        free_slot(slots) < slots.len() ==> !slots[free_slot(slots)].alive,
        forall|id: int| 0 <= id < free_slot(slots) ==> (#[trigger] slots[id]).alive,
    decreases slots.len(),
{
    if slots.len() > 0 {
        lemma_free_slot(slots.drop_last());
        assert forall|id: int| 0 <= id < free_slot(slots) implies (#[trigger] slots[id]).alive by {
            if id < slots.len() - 1 {
                assert(slots.drop_last()[id] == slots[id]);
            }
        }
    }
}

/// A receiver lags exactly when more values were sent since its cursor than
/// the ring keeps, and it misses exactly the surplus.
pub proof fn law_lag_is_the_surplus<T>(state: BroadcastState<T>, id: int)
    requires
        state.wf(),
        state.live(id),
    ensures
        state.cursor(id) < state.oldest() <==> state.tail() - state.cursor(id) > state.capacity,
        state.cursor(id) < state.oldest() ==> state.oldest() - state.cursor(id) == state.tail()
            - state.cursor(id) - state.capacity,
{
}

/// The ring holds the most recent values and never more than its capacity; a
/// send appends its value there and evicts the oldest only when the ring was
/// full.
pub proof fn law_send_evicts_only_when_full<T>(state: BroadcastState<T>, value: T)
    requires
        state.wf(),
    ensures
        ({
            let after = BroadcastState { sent: state.sent.push(value), ..state };
            &&& state.ring().len() <= state.capacity
            &&& state.ring().len() < state.capacity ==> after.ring() == state.ring().push(value)
            &&& state.ring().len() == state.capacity ==> after.ring()
                == state.ring().drop_first().push(value)
            &&& after.slots == state.slots
        }),
{
    let after = BroadcastState { sent: state.sent.push(value), ..state };
    if state.ring().len() < state.capacity {
        assert(after.ring() =~= state.ring().push(value));
    } else {
        assert(after.ring() =~= state.ring().drop_first().push(value));
    }
}

/// A new receiver never sees history: it is caught up when it subscribes, and
/// the first value it can read is the next one sent.
pub proof fn law_subscriber_sees_only_the_future<T>(state: BroadcastState<T>, value: T)
    requires
        state.wf(),
    ensures
        ({
            let id = free_slot(state.slots);
            let joined = state.with_receiver(state.tail());
            let after = BroadcastState { sent: joined.sent.push(value), ..joined };
            &&& joined.live(id)
            &&& joined.cursor(id) == joined.tail()
            &&& after.oldest() <= after.cursor(id) < after.tail()
            &&& after.sent[after.cursor(id) as int] == value
        }),
{
    lemma_free_slot(state.slots);
}

/// Receivers are independent: moving one cursor, or adding a receiver, leaves
/// every other live receiver where it was.
pub proof fn law_receivers_are_independent<T>(
    state: BroadcastState<T>,
    id: int,
    other: int,
    cursor: nat,
)
    requires
        state.wf(),
        state.live(other),
        other != id,
        0 <= id < state.slots.len(),
    ensures
        state.move_cursor(id, cursor).slots[other] == state.slots[other],
        state.with_receiver(cursor).slots[other] == state.slots[other],
        state.with_receiver(cursor).live(other),
{
    lemma_free_slot(state.slots);
}

} // verus!

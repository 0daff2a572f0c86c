//! A multi-producer, single-consumer channel.
//!
//! * A send that hits a full buffer parks **holding its value** in a FIFO
//!   queue inside the core ([`SendOffer::Blocked`]); the value only enters the
//!   buffer when a receive frees a slot.
//! * Every receive wakes exactly one blocked sender: the front-most one that
//!   still waits.
//! * Dropping a sender discards nothing; once the last one is gone the
//!   receiver drains the buffer and then sees
//!   [`TryRecvError::Disconnected`].
//! * [`MpscCore::cancel_send`] models a sender that goes away while blocked:
//!   the queued value is handed back.
//!
//! [`MpscState::pending`] lists the values in the order in which they will be
//! received; every operation is stated over it, so the channel is a queue.

use std::collections::VecDeque;

use vstd::prelude::*;

use super::waiter::{Round, WaiterId, WaiterIds};

verus! {

/// How far a parked send has come.
#[derive(Debug)]
pub enum BlockedState<T> {
    /// Waiting for capacity.
    Queued(T),
    /// The value moved into the buffer.
    Completed,
    /// The channel closed; the value is handed back to the sender.
    Failed(T),
}

/// One send parked on a full buffer. The value moves in at
/// [`MpscCore::offer_send`] and back out when the send completes, fails or is
/// cancelled.
#[derive(Debug)]
pub struct BlockedSend<T> {
    pub waiter: WaiterId,
    pub state: BlockedState<T>,
}

/// The channel as a mathematical value.
#[verifier::ext_equal]
pub struct MpscState<T> {
    pub capacity: nat,
    /// Accepted values, oldest first.
    pub buffer: Seq<T>,
    /// Parked sends, oldest first.
    pub blocked: Seq<BlockedSend<T>>,
    pub waiting_receiver: Option<WaiterId>,
    pub senders: nat,
    pub receiver_present: bool,
    pub closed: bool,
    /// Waiter ids handed out so far.
    pub issued: nat,
}

/// The values of the sends that still wait for capacity, oldest first.
pub open spec fn queued_values<T>(blocked: Seq<BlockedSend<T>>) -> Seq<T>
    decreases blocked.len(),
{
    if blocked.len() == 0 {
        Seq::empty()
    } else {
        match blocked.last().state {
            BlockedState::Queued(value) => queued_values(blocked.drop_last()).push(value),
            _ => queued_values(blocked.drop_last()),
        }
    }
}

/// Position of the first send that still waits for capacity; the queue's
/// length if none does.
pub open spec fn first_queued<T>(blocked: Seq<BlockedSend<T>>) -> int
    decreases blocked.len(),
{
    if blocked.len() == 0 {
        0
    } else {
        let before = first_queued(blocked.drop_last());
        if before < blocked.len() - 1 || blocked.last().state is Queued {
            before
        } else {
            blocked.len() as int
        }
    }
}

/// Position of the send parked under `waiter`; the queue's length if there is
/// none.
pub open spec fn position_of<T>(blocked: Seq<BlockedSend<T>>, waiter: WaiterId) -> int
    decreases blocked.len(),
{
    if blocked.len() == 0 {
        0
    } else {
        let before = position_of(blocked.drop_last(), waiter);
        if before < blocked.len() - 1 || blocked.last().waiter == waiter {
            before
        } else {
            blocked.len() as int
        }
    }
}

/// Whether a parked send still holds its value: one that completed has moved
/// it into the buffer.
pub open spec fn holds_value<T>(entry: BlockedSend<T>) -> bool {
    !(entry.state is Completed)
}

/// A parked send after the channel closed: one that still waited has failed.
pub open spec fn failed<T>(entry: BlockedSend<T>) -> BlockedSend<T> {
    match entry.state {
        BlockedState::Queued(value) => BlockedSend {
            waiter: entry.waiter,
            state: BlockedState::Failed(value),
        },
        _ => entry,
    }
}

impl<T> MpscState<T> {
    /// The values that will be received, in the order in which they will be:
    /// the buffer, then what waits for room in it.
    pub open spec fn pending(self) -> Seq<T> {
        self.buffer + queued_values(self.blocked)
    }

    /// What every operation keeps: the buffer respects its capacity, waiters
    /// are parked in the order of their ids, a send only waits while the
    /// channel is open and its buffer full, it only fails once the channel
    /// closed, and the sends that wait stand behind those that completed.
    pub open spec fn wf(self) -> bool {
        &&& 1 <= self.capacity
        &&& self.buffer.len() <= self.capacity
        &&& self.receiver_present || self.closed
        &&& forall|i: int| 0 <= i < self.blocked.len()
            ==> 1 <= (#[trigger] self.blocked[i]).waiter.0 <= self.issued
        &&& forall|i: int, j: int|
            #![trigger self.blocked[i], self.blocked[j]]
            0 <= i < j < self.blocked.len() ==> self.blocked[i].waiter.0 < self.blocked[j].waiter.0
        &&& forall|i: int| 0 <= i < self.blocked.len()
            ==> (#[trigger] self.blocked[i]).state is Queued
            ==> !self.closed && self.buffer.len() == self.capacity
        &&& forall|i: int| 0 <= i < self.blocked.len()
            ==> (#[trigger] self.blocked[i]).state is Failed ==> self.closed
        &&& forall|i: int, j: int|
            #![trigger self.blocked[i], self.blocked[j]]
            0 <= i < j < self.blocked.len() && self.blocked[j].state is Completed
                ==> self.blocked[i].state is Completed
    }

    /// The state after the oldest buffered value left: the front-most send
    /// that waits moves its value into the freed slot.
    pub open spec fn take_front(self) -> Self {
        let rest = self.buffer.drop_first();
        let i = first_queued(self.blocked);
        if i < self.blocked.len() {
            MpscState {
                buffer: rest.push(self.blocked[i].state->Queued_0),
                blocked: self.blocked.update(
                    i,
                    BlockedSend {
                        waiter: self.blocked[i].waiter,
                        state: BlockedState::Completed,
                    },
                ),
                ..self
            }
        } else {
            MpscState { buffer: rest, ..self }
        }
    }

    /// The state after `n` values were received.
    pub open spec fn received(self, n: nat) -> Self
        decreases n,
    {
        if n == 0 {
            self
        } else {
            self.received((n - 1) as nat).take_front()
        }
    }

    /// The state after the receiving half closed.
    pub open spec fn close(self) -> Self {
        MpscState {
            closed: true,
            blocked: self.blocked.map_values(|entry: BlockedSend<T>| failed(entry)),
            ..self
        }
    }

    /// No value is left and none can come.
    pub open spec fn disconnected(self) -> bool {
        self.buffer.len() == 0 && (self.closed || self.senders == 0)
    }

    /// The state once the receiver has an id to wait under, and that id.
    pub open spec fn registered(self) -> (Self, WaiterId) {
        match self.waiting_receiver {
            Some(waiter) => (self, waiter),
            None => {
                let waiter = WaiterId((self.issued + 1) as u64);
                (
                    MpscState {
                        waiting_receiver: Some(waiter),
                        issued: self.issued + 1,
                        ..self
                    },
                    waiter,
                )
            },
        }
    }

    /// What a receive polled under `waiter` leaves behind, and what it gives.
    pub open spec fn poll(self, waiter: WaiterId) -> (Self, RecvPoll<T>) {
        if self.buffer.len() > 0 {
            let left = self.take_front();
            let waiting = if self.waiting_receiver == Some(waiter) {
                None
            } else {
                self.waiting_receiver
            };
            (MpscState { waiting_receiver: waiting, ..left }, RecvPoll::Value(self.buffer[0]))
        } else if self.disconnected() {
            (MpscState { waiting_receiver: None, ..self }, RecvPoll::Disconnected)
        } else {
            (
                MpscState { waiting_receiver: Some(waiter), ..self },
                RecvPoll::Empty { waiter },
            )
        }
    }
}

/// A call on a channel.
pub enum MpscOp<T> {
    OfferSend(T),
    TrySend(T),
    PollSend(WaiterId),
    CancelSend(WaiterId),
    PollRecv,
    PollRecvWait(WaiterId),
    TryRecv,
    Close,
    AddSender,
    DropSender,
    DropReceiver,
}

impl<T> MpscOp<T> {
    /// Whether the call takes a value if there is one.
    pub open spec fn receives(self) -> bool {
        self is PollRecv || self is PollRecvWait || self is TryRecv
    }
}

impl<T> MpscState<T> {
    /// A send may go into the buffer.
    pub open spec fn admits(self) -> bool {
        !self.closed && self.buffer.len() < self.capacity
    }

    /// The parked send under `waiter` is gone.
    pub open spec fn without(self, waiter: WaiterId) -> Self {
        MpscState { blocked: self.blocked.remove(position_of(self.blocked, waiter)), ..self }
    }

    /// The state after a call.
    pub open spec fn after(self, op: MpscOp<T>) -> Self {
        match op {
            MpscOp::OfferSend(value) => if self.admits() {
                MpscState { buffer: self.buffer.push(value), ..self }
            } else if self.closed {
                self
            } else {
                let waiter = WaiterId((self.issued + 1) as u64);
                MpscState {
                    blocked: self.blocked.push(
                        BlockedSend { waiter, state: BlockedState::Queued(value) },
                    ),
                    issued: self.issued + 1,
                    ..self
                }
            },
            MpscOp::TrySend(value) => if self.admits() {
                MpscState { buffer: self.buffer.push(value), ..self }
            } else {
                self
            },
            MpscOp::PollSend(waiter) => {
                let i = position_of(self.blocked, waiter);
                if i < self.blocked.len() && !(self.blocked[i].state is Queued) {
                    self.without(waiter)
                } else {
                    self
                }
            },
            MpscOp::CancelSend(waiter) => if position_of(self.blocked, waiter)
                < self.blocked.len() {
                self.without(waiter)
            } else {
                self
            },
            MpscOp::PollRecv => {
                let (registered, waiter) = self.registered();
                registered.poll(waiter).0
            },
            MpscOp::PollRecvWait(waiter) => self.poll(waiter).0,
            MpscOp::TryRecv => if self.buffer.len() > 0 {
                self.take_front()
            } else {
                self
            },
            MpscOp::Close => self.close(),
            MpscOp::AddSender => MpscState { senders: self.senders + 1, ..self },
            MpscOp::DropSender => MpscState {
                senders: if self.senders == 0 {
                    0
                } else {
                    (self.senders - 1) as nat
                },
                ..self
            },
            MpscOp::DropReceiver => MpscState { receiver_present: false, ..self.close() },
        }
    }

    /// The values that a call brings into the buffer: one that is accepted, or
    /// the front-most that waited, woken by a receive.
    pub open spec fn accepts(self, op: MpscOp<T>) -> Seq<T> {
        match op {
            MpscOp::OfferSend(value) if self.admits() => seq![value],
            MpscOp::TrySend(value) if self.admits() => seq![value],
            op if op.receives() && self.wakes() => seq![
                self.blocked[first_queued(self.blocked)].state->Queued_0,
            ],
            _ => Seq::empty(),
        }
    }

    /// The values that a call hands out.
    pub open spec fn hands_out(self, op: MpscOp<T>) -> Seq<T> {
        if op.receives() && self.buffer.len() > 0 {
            seq![self.buffer[0]]
        } else {
            Seq::empty()
        }
    }

    /// Whether a receive wakes a send.
    pub open spec fn wakes(self) -> bool {
        self.buffer.len() > 0 && first_queued(self.blocked) < self.blocked.len()
    }
}

/// The pure state machine behind a bounded or unbounded mpsc channel.
#[derive(Debug)]
pub struct MpscCore<T> {
    capacity: usize,
    buffer: VecDeque<T>,
    blocked: Vec<BlockedSend<T>>,
    waiting_receiver: Option<WaiterId>,
    senders: usize,
    receiver_present: bool,
    closed: bool,
    waiters: WaiterIds,
}

/// Outcome of [`MpscCore::offer_send`]: the modelling of one blocking send.
#[derive(Debug, PartialEq, Eq)]
pub enum SendOffer<T> {
    /// The value is in the buffer.
    Accepted,
    /// The buffer is full; the value is parked with this identity.
    Blocked { waiter: WaiterId },
    /// The channel is closed; the value comes back.
    Rejected(T),
}

/// Re-check of a parked send, via [`MpscCore::poll_send`].
#[derive(Debug, PartialEq, Eq)]
pub enum SendPoll<T> {
    /// The value is in the buffer; the sender may proceed.
    Accepted,
    /// Still parked.
    Pending,
    /// The channel closed while parked; the value comes back.
    Failed(T),
    /// No send is parked under this identity: it was cancelled with
    /// [`MpscCore::cancel_send`], or its outcome was already handed out.
    Cancelled,
}

/// Outcome of [`MpscCore::poll_recv`]: the predicate behind a blocking
/// `recv`.
#[derive(Debug, PartialEq, Eq)]
pub enum RecvPoll<T> {
    /// A value was taken from the buffer.
    Value(T),
    /// The buffer is empty; keep waiting with this identity.
    Empty { waiter: WaiterId },
    /// The channel is closed and fully drained.
    Disconnected,
}

/// A send failed because the channel was closed; the value comes back.
#[derive(Debug, PartialEq, Eq)]
pub struct SendError<T>(pub T);

/// [`MpscCore::try_send`] failed.
#[derive(Debug, PartialEq, Eq)]
pub enum TrySendError<T> {
    /// The buffer is full; nothing was sent.
    Full(T),
    /// The channel is closed; the value comes back.
    Closed(T),
}

/// The senders are gone and the buffer is drained.
#[derive(Debug, Clone, Copy, PartialEq, Eq, Structural)]
pub struct RecvError;

/// [`MpscCore::try_recv`] failed.
#[derive(Debug, Clone, Copy, PartialEq, Eq, Structural)]
pub enum TryRecvError {
    /// No value buffered, and senders may still send.
    Empty,
    /// The channel is closed and fully drained.
    Disconnected,
}

impl<T> View for MpscCore<T> {
    type V = MpscState<T>;

    closed spec fn view(&self) -> MpscState<T> {
        MpscState {
            capacity: self.capacity as nat,
            buffer: self.buffer@,
            blocked: self.blocked@,
            waiting_receiver: self.waiting_receiver,
            senders: self.senders as nat,
            receiver_present: self.receiver_present,
            closed: self.closed,
            issued: self.waiters.next as nat,
        }
    }
}

impl<T> MpscCore<T> {
    /// The invariant that every operation keeps.
    pub open spec fn wf(&self) -> bool {
        self@.wf()
    }

    /// How many waits this channel has ever handed out an id for.
    pub fn issued(&self) -> (issued: u64)
        ensures
            issued == self@.issued,
    {
        self.waiters.next
    }

    /// A channel with room for `capacity` buffered values, one sender and the
    /// receiver. Unbounded channels use `usize::MAX`.
    pub fn new(capacity: usize) -> (core: Self)
        requires
            capacity >= 1,
        ensures
            core.wf(),
            core@ == (MpscState::<T> {
                capacity: capacity as nat,
                buffer: Seq::empty(),
                blocked: Seq::empty(),
                waiting_receiver: None,
                senders: 1,
                receiver_present: true,
                closed: false,
                issued: 0,
            }),
    {
        MpscCore {
            capacity,
            buffer: VecDeque::new(),
            blocked: Vec::new(),
            waiting_receiver: None,
            senders: 1,
            receiver_present: true,
            closed: false,
            waiters: WaiterIds { next: 0 },
        }
    }

    /// Model one blocking send.
    pub fn offer_send(&mut self, value: T) -> (offer: SendOffer<T>)
        requires
            old(self).wf(),
            old(self)@.issued < u64::MAX,
        ensures
            final(self).wf(),
            final(self)@ == old(self)@.after(MpscOp::OfferSend(value)),
            match offer {
                SendOffer::Rejected(back) => {
                    &&& old(self)@.closed
                    &&& back == value
                    &&& final(self)@ == old(self)@
                },
                SendOffer::Accepted => {
                    &&& !old(self)@.closed
                    &&& old(self)@.buffer.len() < old(self)@.capacity
                    &&& final(self)@ == (MpscState {
                        buffer: old(self)@.buffer.push(value),
                        ..old(self)@
                    })
                },
                SendOffer::Blocked { waiter } => {
                    &&& !old(self)@.closed
                    &&& old(self)@.buffer.len() == old(self)@.capacity
                    &&& waiter.0 == old(self)@.issued + 1
                    &&& final(self)@ == (MpscState {
                        blocked: old(self)@.blocked.push(
                            BlockedSend { waiter, state: BlockedState::Queued(value) },
                        ),
                        issued: old(self)@.issued + 1,
                        ..old(self)@
                    })
                },
            },
            !(offer is Rejected) ==> final(self)@.pending() == old(self)@.pending().push(value),
    {
        if self.closed {
            return SendOffer::Rejected(value);
        }
        if self.buffer.len() < self.capacity {
            proof {
                lemma_no_queued(self@);
            }
            self.buffer.push_back(value);
            return SendOffer::Accepted;
        }
        let waiter = self.waiters.allocate();
        self.blocked.push(BlockedSend { waiter, state: BlockedState::Queued(value) });
        proof {
            let entry = BlockedSend { waiter, state: BlockedState::Queued(value) };
            assert(old(self)@.blocked.push(entry).drop_last() =~= old(self)@.blocked);
        }
        SendOffer::Blocked { waiter }
    }

    /// Position of the send parked under `waiter`.
    fn find(&self, waiter: WaiterId) -> (found: Option<usize>)
        ensures
            match found {
                Some(i) => i < self@.blocked.len() && i == position_of(self@.blocked, waiter),
                None => position_of(self@.blocked, waiter) == self@.blocked.len(),
            },
    {
        let mut i: usize = 0;
        assert(self.blocked@.take(0) =~= Seq::empty());
        while i < self.blocked.len()
            invariant
                i <= self.blocked.len(),
                position_of(self.blocked@.take(i as int), waiter) == i,
            decreases self.blocked.len() - i,
        {
            proof {
                assert(self.blocked@.take(i + 1).drop_last() =~= self.blocked@.take(i as int));
                lemma_position_prefix(self.blocked@, waiter, i + 1);
            }
            if self.blocked[i].waiter == waiter {
                return Some(i);
            }
            i = i + 1;
        }
        assert(self.blocked@.take(i as int) =~= self.blocked@);
        None
    }

    /// Position of the front-most send that waits for capacity.
    fn find_queued(&self) -> (found: Option<usize>)
        ensures
            match found {
                Some(i) => {
                    &&& i < self@.blocked.len()
                    &&& i == first_queued(self@.blocked)
                    &&& self@.blocked[i as int].state is Queued
                },
                None => first_queued(self@.blocked) == self@.blocked.len(),
            },
    {
        let mut i: usize = 0;
        assert(self.blocked@.take(0) =~= Seq::empty());
        while i < self.blocked.len()
            invariant
                i <= self.blocked.len(),
                first_queued(self.blocked@.take(i as int)) == i,
            decreases self.blocked.len() - i,
        {
            proof {
                assert(self.blocked@.take(i + 1).drop_last() =~= self.blocked@.take(i as int));
                lemma_first_queued_prefix(self.blocked@, i + 1);
            }
            match self.blocked[i].state {
                BlockedState::Queued(_) => {
                    return Some(i);
                },
                _ => {},
            }
            i = i + 1;
        }
        assert(self.blocked@.take(i as int) =~= self.blocked@);
        None
    }

    /// Re-check a parked send. An outcome is handed out once: the entry
    /// leaves the queue with it.
    pub fn poll_send(&mut self, waiter: WaiterId) -> (poll: SendPoll<T>)
        requires
            old(self).wf(),
        ensures
            final(self).wf(),
            final(self)@ == old(self)@.after(MpscOp::PollSend(waiter)),
            final(self)@.pending() == old(self)@.pending(),
            ({
                let i = position_of(old(self)@.blocked, waiter);
                match poll {
                    SendPoll::Cancelled => {
                        &&& i == old(self)@.blocked.len()
                        &&& final(self)@ == old(self)@
                    },
                    SendPoll::Pending => {
                        &&& i < old(self)@.blocked.len()
                        &&& old(self)@.blocked[i].state is Queued
                        &&& final(self)@ == old(self)@
                    },
                    SendPoll::Accepted => {
                        &&& i < old(self)@.blocked.len()
                        &&& old(self)@.blocked[i].state is Completed
                        &&& final(self)@ == (MpscState {
                            blocked: old(self)@.blocked.remove(i),
                            ..old(self)@
                        })
                    },
                    SendPoll::Failed(value) => {
                        &&& i < old(self)@.blocked.len()
                        &&& old(self)@.blocked[i].state == BlockedState::Failed(value)
                        &&& final(self)@ == (MpscState {
                            blocked: old(self)@.blocked.remove(i),
                            ..old(self)@
                        })
                    },
                }
            }),
    {
        let i: usize = match self.find(waiter) {
            Some(i) => i,
            None => {
                return SendPoll::Cancelled;
            },
        };
        match self.blocked[i].state {
            BlockedState::Queued(_) => {
                return SendPoll::Pending;
            },
            _ => {},
        }
        proof {
            lemma_remove_keeps_values(self.blocked@, i as int);
        }
        let entry = self.blocked.remove(i);
        match entry.state {
            BlockedState::Failed(value) => SendPoll::Failed(value),
            _ => SendPoll::Accepted,
        }
    }

    /// Non-blocking send: never parks a value, never joins the queue.
    pub fn try_send(&mut self, value: T) -> (result: Result<(), TrySendError<T>>)
        requires
            old(self).wf(),
        ensures
            final(self).wf(),
            final(self)@ == old(self)@.after(MpscOp::TrySend(value)),
            match result {
                Ok(()) => {
                    &&& !old(self)@.closed
                    &&& old(self)@.buffer.len() < old(self)@.capacity
                    &&& final(self)@ == (MpscState {
                        buffer: old(self)@.buffer.push(value),
                        ..old(self)@
                    })
                    &&& final(self)@.pending() == old(self)@.pending().push(value)
                },
                Err(TrySendError::Closed(back)) => {
                    &&& old(self)@.closed
                    &&& back == value
                    &&& final(self)@ == old(self)@
                },
                Err(TrySendError::Full(back)) => {
                    &&& !old(self)@.closed
                    &&& old(self)@.buffer.len() == old(self)@.capacity
                    &&& back == value
                    &&& final(self)@ == old(self)@
                },
            },
    {
        if self.closed {
            return Err(TrySendError::Closed(value));
        }
        if self.buffer.len() >= self.capacity {
            return Err(TrySendError::Full(value));
        }
        proof {
            lemma_no_queued(self@);
        }
        self.buffer.push_back(value);
        Ok(())
    }

    /// Poll for a value, registering the receiver as waiting when empty.
    pub fn poll_recv(&mut self) -> (poll: RecvPoll<T>)
        requires
            old(self).wf(),
            old(self)@.issued < u64::MAX,
        ensures
            final(self).wf(),
            final(self)@ == old(self)@.after(MpscOp::PollRecv),
            ({
                let (registered, waiter) = old(self)@.registered();
                (final(self)@, poll) == registered.poll(waiter)
            }),
            match poll {
                RecvPoll::Value(value) => old(self)@.pending() == seq![value]
                    + final(self)@.pending(),
                _ => final(self)@.pending() == old(self)@.pending(),
            },
    {
        let waiter = match self.waiting_receiver {
            Some(waiter) => waiter,
            None => {
                let waiter = self.waiters.allocate();
                self.waiting_receiver = Some(waiter);
                waiter
            },
        };
        self.poll_recv_wait(waiter)
    }

    /// Re-check a waiting receiver's poll.
    pub fn poll_recv_wait(&mut self, waiter: WaiterId) -> (poll: RecvPoll<T>)
        requires
            old(self).wf(),
        ensures
            final(self).wf(),
            final(self)@ == old(self)@.after(MpscOp::PollRecvWait(waiter)),
            (final(self)@, poll) == old(self)@.poll(waiter),
            match poll {
                RecvPoll::Value(value) => old(self)@.pending() == seq![value]
                    + final(self)@.pending(),
                _ => final(self)@.pending() == old(self)@.pending(),
            },
    {
        match self.take_oldest() {
            Some(value) => {
                match self.waiting_receiver {
                    Some(waiting) => if waiting == waiter {
                        self.waiting_receiver = None;
                    },
                    None => {},
                }
                RecvPoll::Value(value)
            },
            None => if self.closed || self.senders == 0 {
                self.waiting_receiver = None;
                RecvPoll::Disconnected
            } else {
                self.waiting_receiver = Some(waiter);
                RecvPoll::Empty { waiter }
            },
        }
    }

    /// Non-blocking receive.
    pub fn try_recv(&mut self) -> (result: Result<T, TryRecvError>)
        requires
            old(self).wf(),
        ensures
            final(self).wf(),
            final(self)@ == old(self)@.after(MpscOp::TryRecv),
            match result {
                Ok(value) => {
                    &&& old(self)@.buffer.len() > 0
                    &&& value == old(self)@.buffer[0]
                    &&& final(self)@ == old(self)@.take_front()
                    &&& old(self)@.pending() == seq![value] + final(self)@.pending()
                },
                Err(TryRecvError::Disconnected) => {
                    &&& old(self)@.disconnected()
                    &&& final(self)@ == old(self)@
                },
                Err(TryRecvError::Empty) => {
                    &&& old(self)@.buffer.len() == 0
                    &&& !old(self)@.disconnected()
                    &&& final(self)@ == old(self)@
                },
            },
    {
        match self.take_oldest() {
            Some(value) => Ok(value),
            None => if self.closed || self.senders == 0 {
                Err(TryRecvError::Disconnected)
            } else {
                Err(TryRecvError::Empty)
            },
        }
    }

    /// Take the oldest buffered value. As soon as its slot frees up, the
    /// front-most send that waits proceeds into the buffer (FIFO).
    fn take_oldest(&mut self) -> (taken: Option<T>)
        requires
            old(self).wf(),
        ensures
            final(self).wf(),
            match taken {
                Some(value) => {
                    &&& old(self)@.buffer.len() > 0
                    &&& value == old(self)@.buffer[0]
                    &&& final(self)@ == old(self)@.take_front()
                    &&& old(self)@.pending() == seq![value] + final(self)@.pending()
                },
                None => old(self)@.buffer.len() == 0 && final(self)@ == old(self)@,
            },
    {
        let ghost before = self@;
        let value = match self.buffer.pop_front() {
            Some(value) => value,
            None => {
                return None;
            },
        };
        proof {
            lemma_take_front(before);
        }
        match self.find_queued() {
            Some(i) => {
                let mut state = BlockedState::Completed;
                core::mem::swap(&mut self.blocked[i].state, &mut state);
                match state {
                    BlockedState::Queued(promoted) => {
                        self.buffer.push_back(promoted);
                    },
                    _ => {},
                }
            },
            None => {},
        }
        assert(self@ =~= before.take_front());
        Some(value)
    }

    /// Close the receiving half: buffered values stay drainable, parked sends
    /// fail with their values back, new sends are rejected.
    pub fn close(&mut self)
        requires
            old(self).wf(),
        ensures
            final(self).wf(),
            final(self)@ == old(self)@.after(MpscOp::Close),
            final(self)@ == old(self)@.close(),
            final(self)@.pending() == old(self)@.buffer,
    {
        self.closed = true;
        let mut i: usize = 0;
        while i < self.blocked.len()
            invariant
                i <= self.blocked.len(),
                self.blocked.len() == old(self)@.blocked.len(),
                self@ == (MpscState { closed: true, blocked: self.blocked@, ..old(self)@ }),
                forall|k: int| 0 <= k < i
                    ==> #[trigger] self.blocked@[k] == failed(old(self)@.blocked[k]),
                forall|k: int| i <= k < self.blocked.len()
                    ==> #[trigger] self.blocked@[k] == old(self)@.blocked[k],
            decreases self.blocked.len() - i,
        {
            let mut state = BlockedState::Completed;
            core::mem::swap(&mut self.blocked[i].state, &mut state);
            let state = match state {
                BlockedState::Queued(value) => BlockedState::Failed(value),
                other => other,
            };
            self.blocked[i].state = state;
            i = i + 1;
        }
        assert(self@ =~= old(self)@.close());
        proof {
            lemma_no_queued(self@);
        }
    }

    /// A sender handle appeared (a clone or a fresh connection).
    pub fn add_sender(&mut self)
        requires
            old(self).wf(),
            old(self)@.senders < usize::MAX,
        ensures
            final(self).wf(),
            final(self)@ == old(self)@.after(MpscOp::AddSender),
            final(self)@ == (MpscState { senders: old(self)@.senders + 1, ..old(self)@ }),
    {
        self.senders = self.senders + 1;
    }

    /// A sender handle was dropped. The last one disconnects the channel once
    /// the buffer drains.
    pub fn drop_sender(&mut self)
        requires
            old(self).wf(),
        ensures
            final(self).wf(),
            final(self)@ == old(self)@.after(MpscOp::DropSender),
            final(self)@ == (MpscState {
                senders: if old(self)@.senders == 0 {
                    0
                } else {
                    (old(self)@.senders - 1) as nat
                },
                ..old(self)@
            }),
    {
        if self.senders > 0 {
            self.senders = self.senders - 1;
        }
    }

    /// The receiver handle was dropped: the channel closes.
    pub fn drop_receiver(&mut self)
        requires
            old(self).wf(),
        ensures
            final(self).wf(),
            final(self)@ == old(self)@.after(MpscOp::DropReceiver),
            final(self)@ == (MpscState { receiver_present: false, ..old(self)@.close() }),
            final(self)@.pending() == old(self)@.buffer,
    {
        self.close();
        self.receiver_present = false;
    }

    /// Cancel a parked send, handing its value back: `None` if no send is
    /// parked under `waiter` or its value is already in the buffer.
    pub fn cancel_send(&mut self, waiter: WaiterId) -> (back: Option<T>)
        requires
            old(self).wf(),
        ensures
            final(self).wf(),
            final(self)@ == old(self)@.after(MpscOp::CancelSend(waiter)),
            ({
                let i = position_of(old(self)@.blocked, waiter);
                if i < old(self)@.blocked.len() {
                    &&& final(self)@ == (MpscState {
                        blocked: old(self)@.blocked.remove(i),
                        ..old(self)@
                    })
                    &&& back == match old(self)@.blocked[i].state {
                        BlockedState::Queued(value) => Some(value),
                        BlockedState::Failed(value) => Some(value),
                        BlockedState::Completed => None,
                    }
                } else {
                    final(self)@ == old(self)@ && back is None
                }
            }),
    {
        let i: usize = match self.find(waiter) {
            Some(i) => i,
            None => {
                return None;
            },
        };
        let entry = self.blocked.remove(i);
        match entry.state {
            BlockedState::Queued(value) | BlockedState::Failed(value) => Some(value),
            BlockedState::Completed => None,
        }
    }

    /// The first round of a blocking send.
    pub fn send_round(&mut self, value: T) -> (round: Round<Result<(), SendError<T>>>)
        requires
            old(self).wf(),
            old(self)@.issued < u64::MAX,
        ensures
            final(self).wf(),
            final(self)@ == old(self)@.after(MpscOp::OfferSend(value)),
            match round {
                Round::Done { result: Ok(()), bell } => {
                    &&& bell
                    &&& !old(self)@.closed
                    &&& old(self)@.buffer.len() < old(self)@.capacity
                    &&& final(self)@ == (MpscState {
                        buffer: old(self)@.buffer.push(value),
                        ..old(self)@
                    })
                },
                Round::Done { result: Err(SendError(back)), bell } => {
                    &&& !bell
                    &&& old(self)@.closed
                    &&& back == value
                    &&& final(self)@ == old(self)@
                },
                Round::Park { waiter } => {
                    &&& !old(self)@.closed
                    &&& old(self)@.buffer.len() == old(self)@.capacity
                    &&& waiter.0 == old(self)@.issued + 1
                    &&& final(self)@ == (MpscState {
                        blocked: old(self)@.blocked.push(
                            BlockedSend { waiter, state: BlockedState::Queued(value) },
                        ),
                        issued: old(self)@.issued + 1,
                        ..old(self)@
                    })
                },
            },
    {
        match self.offer_send(value) {
            SendOffer::Accepted => Round::Done { result: Ok(()), bell: true },
            SendOffer::Blocked { waiter } => Round::Park { waiter },
            SendOffer::Rejected(value) => Round::Done { result: Err(SendError(value)), bell: false },
        }
    }

    /// Another round of a blocking send that is parked as `waiter`.
    pub fn resend_round(&mut self, waiter: WaiterId) -> (round: Round<Result<(), SendError<T>>>)
        requires
            old(self).wf(),
            position_of(old(self)@.blocked, waiter) < old(self)@.blocked.len(),
        ensures
            final(self).wf(),
            final(self)@ == old(self)@.after(MpscOp::PollSend(waiter)),
            ({
                let i = position_of(old(self)@.blocked, waiter);
                let gone = MpscState { blocked: old(self)@.blocked.remove(i), ..old(self)@ };
                match round {
                    Round::Done { result: Ok(()), bell } => {
                        &&& bell
                        &&& old(self)@.blocked[i].state is Completed
                        &&& final(self)@ == gone
                    },
                    Round::Done { result: Err(SendError(back)), bell } => {
                        &&& !bell
                        &&& old(self)@.blocked[i].state == BlockedState::Failed(back)
                        &&& final(self)@ == gone
                    },
                    Round::Park { waiter: kept } => {
                        &&& kept == waiter
                        &&& old(self)@.blocked[i].state is Queued
                        &&& final(self)@ == old(self)@
                    },
                }
            }),
    {
        match self.poll_send(waiter) {
            SendPoll::Accepted => Round::Done { result: Ok(()), bell: true },
            SendPoll::Failed(value) => Round::Done { result: Err(SendError(value)), bell: false },
            SendPoll::Pending | SendPoll::Cancelled => Round::Park { waiter },
        }
    }

    /// Send on a channel that is never full.
    pub fn unbounded_send(&mut self, value: T) -> (result: Result<(), SendError<T>>)
        requires
            old(self).wf(),
            old(self)@.issued < u64::MAX,
            old(self)@.buffer.len() < old(self)@.capacity,
        ensures
            final(self).wf(),
            final(self)@ == old(self)@.after(MpscOp::OfferSend(value)),
            match result {
                Ok(()) => {
                    &&& !old(self)@.closed
                    &&& final(self)@ == (MpscState {
                        buffer: old(self)@.buffer.push(value),
                        ..old(self)@
                    })
                },
                Err(SendError(back)) => {
                    &&& old(self)@.closed
                    &&& back == value
                    &&& final(self)@ == old(self)@
                },
            },
    {
        match self.send_round(value) {
            Round::Done { result, .. } => result,
            Round::Park { .. } => Ok(()),
        }
    }

    /// One round of a blocking receive; `waiter` is what it parked as in the
    /// round before, if there was one.
    pub fn recv_round(&mut self, waiter: Option<WaiterId>) -> (round: Round<
        Result<T, RecvError>,
    >)
        requires
            old(self).wf(),
            old(self)@.issued < u64::MAX,
        ensures
            final(self).wf(),
            final(self)@ == old(self)@.after(
                match waiter {
                    Some(waiter) => MpscOp::PollRecvWait(waiter),
                    None => MpscOp::PollRecv,
                },
            ),
            ({
                let (registered, parked) = match waiter {
                    Some(waiter) => (old(self)@, waiter),
                    None => old(self)@.registered(),
                };
                let (after, poll) = registered.poll(parked);
                &&& final(self)@ == after
                &&& round == match poll {
                    RecvPoll::Value(value) => Round::Done { result: Ok(value), bell: true },
                    RecvPoll::Disconnected => Round::Done { result: Err(RecvError), bell: false },
                    RecvPoll::Empty { waiter } => Round::Park { waiter },
                }
            }),
    {
        let poll = match waiter {
            Some(waiter) => self.poll_recv_wait(waiter),
            None => self.poll_recv(),
        };
        match poll {
            RecvPoll::Value(value) => Round::Done { result: Ok(value), bell: true },
            RecvPoll::Disconnected => Round::Done { result: Err(RecvError), bell: false },
            RecvPoll::Empty { waiter } => Round::Park { waiter },
        }
    }

    /// Configured capacity (`usize::MAX` when unbounded).
    pub fn capacity(&self) -> (capacity: usize)
        ensures
            capacity == self@.capacity,
    {
        self.capacity
    }

    /// Values sitting in the buffer.
    pub fn len(&self) -> (len: usize)
        ensures
            len == self@.buffer.len(),
    {
        self.buffer.len()
    }

    /// True when no value is buffered or parked.
    pub fn is_empty(&self) -> (empty: bool)
        ensures
            empty == (self@.buffer.len() == 0 && forall|i: int|
                0 <= i < self@.blocked.len() ==> !holds_value(#[trigger] self@.blocked[i])),
    {
        if self.buffer.len() > 0 {
            return false;
        }
        let mut i: usize = 0;
        while i < self.blocked.len()
            invariant
                i <= self.blocked.len(),
                self@.buffer.len() == 0,
                forall|k: int| 0 <= k < i ==> !holds_value(#[trigger] self@.blocked[k]),
            decreases self.blocked.len() - i,
        {
            match self.blocked[i].state {
                BlockedState::Completed => {},
                _ => {
                    assert(holds_value(self@.blocked[i as int]));
                    return false;
                },
            }
            i = i + 1;
        }
        true
    }

    /// Number of parked sends.
    pub fn blocked_len(&self) -> (len: usize)
        ensures
            len == self@.blocked.len(),
    {
        self.blocked.len()
    }

    /// Parked sends in queue order, which is the FIFO wake order.
    pub fn blocked_waiters(&self) -> (waiters: Vec<WaiterId>)
        ensures
            waiters@ == self@.blocked.map_values(|entry: BlockedSend<T>| entry.waiter),
    {
        let mut waiters: Vec<WaiterId> = Vec::new();
        let mut i: usize = 0;
        while i < self.blocked.len()
            invariant
                i <= self.blocked.len(),
                waiters@ == self.blocked@.take(i as int).map_values(
                    |entry: BlockedSend<T>| entry.waiter,
                ),
            decreases self.blocked.len() - i,
        {
            waiters.push(self.blocked[i].waiter);
            i = i + 1;
            assert(waiters@ =~= self.blocked@.take(i as int).map_values(
                |entry: BlockedSend<T>| entry.waiter,
            ));
        }
        assert(self.blocked@.take(i as int) =~= self.blocked@);
        waiters
    }

    /// The send parked at position `i` of the queue, with the value it still
    /// holds.
    pub fn blocked(&self, i: usize) -> (entry: (WaiterId, Option<&T>))
        requires
            i < self@.blocked.len(),
        ensures
            entry.0 == self@.blocked[i as int].waiter,
            match self@.blocked[i as int].state {
                BlockedState::Queued(value) => entry.1 == Some(&value),
                BlockedState::Failed(value) => entry.1 == Some(&value),
                BlockedState::Completed => entry.1 is None,
            },
    {
        let entry = &self.blocked[i];
        match &entry.state {
            BlockedState::Queued(value) | BlockedState::Failed(value) => (
                entry.waiter,
                Some(value),
            ),
            BlockedState::Completed => (entry.waiter, None),
        }
    }

    /// The buffered value at position `i`, counted from the oldest.
    pub fn buffered(&self, i: usize) -> (value: &T)
        requires
            i < self@.buffer.len(),
        ensures
            *value == self@.buffer[i as int],
    {
        &self.buffer[i]
    }

    /// Identity of the receiver currently waiting on an empty channel.
    pub fn waiting_receiver(&self) -> (waiter: Option<WaiterId>)
        ensures
            waiter == self@.waiting_receiver,
    {
        self.waiting_receiver
    }

    /// True once `close` happened or the receiver is gone.
    pub fn is_closed(&self) -> (closed: bool)
        ensures
            closed == self@.closed,
    {
        self.closed
    }

    /// Number of live sender handles.
    pub fn sender_count(&self) -> (count: usize)
        ensures
            count == self@.senders,
    {
        self.senders
    }

    /// True while a receiver handle exists.
    pub fn has_receiver(&self) -> (present: bool)
        ensures
            present == self@.receiver_present,
    {
        self.receiver_present
    }
}

/// Where nothing waits, the pending values are the buffer.
proof fn lemma_no_queued_values<T>(blocked: Seq<BlockedSend<T>>)
    requires
        forall|i: int| 0 <= i < blocked.len() ==> !((#[trigger] blocked[i]).state is Queued),
    ensures
        queued_values(blocked) == Seq::<T>::empty(),
        first_queued(blocked) == blocked.len(),
    decreases blocked.len(),
{
    if blocked.len() > 0 {
        assert forall|i: int| 0 <= i < blocked.drop_last().len() implies !((
        #[trigger] blocked.drop_last()[i]).state is Queued) by {
            assert(blocked.drop_last()[i] == blocked[i]);
        }
        lemma_no_queued_values(blocked.drop_last());
    }
}

/// A channel with room in its buffer, or a closed one, has nothing waiting.
proof fn lemma_no_queued<T>(state: MpscState<T>)
    requires
        state.wf(),
        state.closed || state.buffer.len() < state.capacity,
    ensures
        queued_values(state.blocked) == Seq::<T>::empty(),
        first_queued(state.blocked) == state.blocked.len(),
        state.pending() == state.buffer,
{
    lemma_no_queued_values(state.blocked);
    assert(state.buffer + Seq::<T>::empty() =~= state.buffer);
}

/// Searching a prefix that finds something finds what the whole search does.
proof fn lemma_position_prefix<T>(blocked: Seq<BlockedSend<T>>, waiter: WaiterId, n: int)
    requires
        0 <= n <= blocked.len(),
    ensures
        0 <= position_of(blocked.take(n), waiter) <= n,
        position_of(blocked.take(n), waiter) < n ==> position_of(blocked, waiter)
            == position_of(blocked.take(n), waiter),
    decreases blocked.len(),
{
    if n < blocked.len() {
        lemma_position_prefix(blocked.drop_last(), waiter, n);
        assert(blocked.drop_last().take(n) =~= blocked.take(n));
    } else {
        assert(blocked.take(n) =~= blocked);
        if n > 0 {
            lemma_position_prefix(blocked.drop_last(), waiter, n - 1);
            assert(blocked.drop_last().take(n - 1) =~= blocked.drop_last());
        }
    }
}

/// Searching a prefix that finds something finds what the whole search does.
proof fn lemma_first_queued_prefix<T>(blocked: Seq<BlockedSend<T>>, n: int)
    requires
        0 <= n <= blocked.len(),
    ensures
        0 <= first_queued(blocked.take(n)) <= n,
        first_queued(blocked.take(n)) < n ==> first_queued(blocked) == first_queued(
            blocked.take(n),
        ),
    decreases blocked.len(),
{
    if n < blocked.len() {
        lemma_first_queued_prefix(blocked.drop_last(), n);
        assert(blocked.drop_last().take(n) =~= blocked.take(n));
    } else {
        assert(blocked.take(n) =~= blocked);
        if n > 0 {
            lemma_first_queued_prefix(blocked.drop_last(), n - 1);
            assert(blocked.drop_last().take(n - 1) =~= blocked.drop_last());
        }
    }
}

/// The first waiting send is what its name says, and everything before it
/// does not wait.
pub(crate) proof fn lemma_first_queued<T>(blocked: Seq<BlockedSend<T>>)
    ensures
        0 <= first_queued(blocked) <= blocked.len(),
        first_queued(blocked) < blocked.len() ==> blocked[first_queued(blocked)].state is Queued,
        forall|i: int| 0 <= i < first_queued(blocked) ==> !((#[trigger] blocked[i]).state is Queued),
    decreases blocked.len(),
{
    if blocked.len() > 0 {
        lemma_first_queued(blocked.drop_last());
        assert forall|i: int| 0 <= i < first_queued(blocked) implies !((
        #[trigger] blocked[i]).state is Queued) by {
            if i < blocked.len() - 1 {
                assert(blocked.drop_last()[i] == blocked[i]);
            }
        }
    }
}

/// Promoting the first waiting send takes the first value off those that
/// wait.
proof fn lemma_promote<T>(blocked: Seq<BlockedSend<T>>)
    requires
        first_queued(blocked) < blocked.len(),
    ensures
        ({
            let i = first_queued(blocked);
            let after = blocked.update(
                i,
                BlockedSend { waiter: blocked[i].waiter, state: BlockedState::Completed },
            );
            queued_values(blocked) == seq![blocked[i].state->Queued_0] + queued_values(after)
        }),
    decreases blocked.len(),
{
    lemma_first_queued(blocked);
    let i = first_queued(blocked);
    let entry = BlockedSend { waiter: blocked[i].waiter, state: BlockedState::<T>::Completed };
    let after = blocked.update(i, entry);
    let front = blocked.drop_last();
    let value = blocked[i].state->Queued_0;
    if i < blocked.len() - 1 {
        assert(first_queued(front) == i);
        lemma_promote(front);
        assert(after.drop_last() =~= front.update(i, entry));
        match blocked.last().state {
            BlockedState::Queued(last) => {
                assert((seq![value] + queued_values(front.update(i, entry))).push(last)
                    =~= seq![value] + queued_values(front.update(i, entry)).push(last));
            },
            _ => {},
        }
    } else {
        lemma_first_queued(front);
        assert(first_queued(front) == front.len());
        assert forall|k: int| 0 <= k < front.len() implies !((#[trigger] front[k]).state is Queued) by {
        }
        lemma_no_queued_values(front);
        assert(after.drop_last() =~= front);
        assert(queued_values(blocked) =~= seq![value] + Seq::<T>::empty());
    }
}

/// Taking the oldest value keeps the invariant and takes exactly that value
/// off the pending ones.
pub(crate) proof fn lemma_take_front<T>(state: MpscState<T>)
    requires
        state.wf(),
        state.buffer.len() > 0,
    ensures
        state.take_front().wf(),
        state.pending() == seq![state.buffer[0]] + state.take_front().pending(),
{
    lemma_first_queued(state.blocked);
    let i = first_queued(state.blocked);
    let after = state.take_front();
    if i < state.blocked.len() {
        lemma_promote(state.blocked);
        assert forall|j: int| 0 <= j < i implies (#[trigger] state.blocked[j]).state is Completed by {
            assert(!(state.blocked[j].state is Queued));
        }
        assert(after.wf());
    } else {
        assert forall|j: int| 0 <= j < state.blocked.len() implies !((
        #[trigger] state.blocked[j]).state is Queued) by {
        }
    }
    assert(state.pending() =~= seq![state.buffer[0]] + after.pending());
}

/// Removing a parked send that does not wait leaves those that wait alone.
proof fn lemma_remove_keeps_values<T>(blocked: Seq<BlockedSend<T>>, i: int)
    requires
        0 <= i < blocked.len(),
        !(blocked[i].state is Queued),
    ensures
        queued_values(blocked.remove(i)) == queued_values(blocked),
    decreases blocked.len(),
{
    let front = blocked.drop_last();
    if i < blocked.len() - 1 {
        lemma_remove_keeps_values(front, i);
        assert(blocked.remove(i).drop_last() =~= front.remove(i));
    } else {
        assert(blocked.remove(i) =~= front);
    }
}

/// Where exactly the sends from `n` on wait, the first that waits is `n`.
pub proof fn lemma_first_queued_at<T>(blocked: Seq<BlockedSend<T>>, n: int)
    requires
        0 <= n <= blocked.len(),
        forall|i: int| 0 <= i < n ==> !((#[trigger] blocked[i]).state is Queued),
        forall|i: int| n <= i < blocked.len() ==> (#[trigger] blocked[i]).state is Queued,
    ensures
        first_queued(blocked) == n,
{
    lemma_first_queued(blocked);
    let i = first_queued(blocked);
    if i < n {
        assert(blocked[i].state is Queued);
    }
    if n < i {
        assert(!(blocked[n].state is Queued));
    }
}

/// Where every send waits, their values are those that wait.
pub proof fn lemma_all_queued<T>(blocked: Seq<BlockedSend<T>>, values: Seq<T>)
    requires
        values.len() == blocked.len(),
        forall|i: int|
            0 <= i < blocked.len() ==> (#[trigger] blocked[i]).state == BlockedState::Queued(
                values[i],
            ),
    ensures
        queued_values(blocked) == values,
    decreases blocked.len(),
{
    if blocked.len() > 0 {
        assert forall|i: int| 0 <= i < blocked.drop_last().len() implies (
        #[trigger] blocked.drop_last()[i]).state == BlockedState::Queued(
            values.drop_last()[i],
        ) by {
            assert(blocked.drop_last()[i] == blocked[i]);
        }
        lemma_all_queued(blocked.drop_last(), values.drop_last());
        assert(blocked.last().state == BlockedState::Queued(values.last()));
        assert(values.drop_last().push(values.last()) =~= values);
    } else {
        assert(values =~= Seq::empty());
    }
}

/// A parked send is found where it stands: no two share an identity.
pub proof fn lemma_position_at<T>(state: MpscState<T>, i: int)
    requires
        state.wf(),
        0 <= i < state.blocked.len(),
    ensures
        position_of(state.blocked, state.blocked[i].waiter) == i,
{
    let waiter = state.blocked[i].waiter;
    lemma_position_found(state.blocked, waiter, i);
    let p = position_of(state.blocked, waiter);
    if p != i {
        assert(state.blocked[p].waiter == state.blocked[i].waiter);
    }
}

proof fn lemma_position_found<T>(blocked: Seq<BlockedSend<T>>, waiter: WaiterId, i: int)
    requires
        0 <= i < blocked.len(),
        blocked[i].waiter == waiter,
    ensures
        0 <= position_of(blocked, waiter) <= i,
        blocked[position_of(blocked, waiter)].waiter == waiter,
    decreases blocked.len(),
{
    if i < blocked.len() - 1 {
        assert(blocked.drop_last()[i] == blocked[i]);
        lemma_position_found(blocked.drop_last(), waiter, i);
    } else {
        lemma_position_prefix(blocked.drop_last(), waiter, blocked.len() - 1);
        assert(blocked.drop_last().take(blocked.len() - 1) =~= blocked.drop_last());
        if position_of(blocked.drop_last(), waiter) < blocked.len() - 1 {
            lemma_position_sound(blocked.drop_last(), waiter);
        }
    }
}

pub(crate) proof fn lemma_position_sound<T>(blocked: Seq<BlockedSend<T>>, waiter: WaiterId)
    ensures
        0 <= position_of(blocked, waiter) <= blocked.len(),
        position_of(blocked, waiter) < blocked.len() ==> blocked[position_of(
            blocked,
            waiter,
        )].waiter == waiter,
    decreases blocked.len(),
{
    if blocked.len() > 0 {
        lemma_position_sound(blocked.drop_last(), waiter);
    }
}

/// Every receive wakes exactly one blocked sender, the front-most that waits,
/// and nobody while none waits. The freed slot goes to it, so the buffer
/// stays full while somebody waits.
pub proof fn law_receive_wakes_the_front<T>(state: MpscState<T>)
    requires
        state.wf(),
        state.buffer.len() > 0,
    ensures
        ({
            let after = state.take_front();
            let i = first_queued(state.blocked);
            &&& after.wf()
            &&& 0 <= i <= state.blocked.len()
            &&& forall|k: int| 0 <= k < i ==> !((#[trigger] state.blocked[k]).state is Queued)
            &&& i == state.blocked.len() ==> {
                &&& after.blocked == state.blocked
                &&& after.buffer == state.buffer.drop_first()
            }
            &&& i < state.blocked.len() ==> {
                &&& state.blocked[i].state is Queued
                &&& after.blocked[i].state is Completed
                &&& after.buffer.len() == state.capacity
                &&& after.buffer.last() == state.blocked[i].state->Queued_0
                &&& forall|k: int| 0 <= k < state.blocked.len() && k != i
                    ==> #[trigger] after.blocked[k] == state.blocked[k]
            }
        }),
{
    lemma_first_queued(state.blocked);
    lemma_take_front(state);
}

/// The channel is a queue: whatever is pending is received in that order. The
/// `n`-th receive from here on takes the `n`-th pending value, as long as the
/// buffer lasts, and leaves the rest pending.
pub proof fn law_fifo<T>(state: MpscState<T>, n: nat)
    requires
        state.wf(),
        n <= state.pending().len(),
    ensures
        state.received(n).wf(),
        state.received(n).pending() == state.pending().skip(n as int),
        n < state.pending().len() ==> {
            &&& state.received(n).buffer.len() > 0
            &&& state.received(n).buffer[0] == state.pending()[n as int]
        },
    decreases n,
{
    if n > 0 {
        let m = (n - 1) as nat;
        law_fifo(state, m);
        lemma_take_front(state.received(m));
        let rest = state.received(n).pending();
        assert(state.pending().skip(m as int) =~= seq![state.pending()[m as int]] + rest);
        assert(rest =~= (seq![state.pending()[m as int]] + rest).skip(1));
        assert(state.pending().skip(m as int).skip(1) =~= state.pending().skip(n as int));
    } else {
        assert(state.pending().skip(0) =~= state.pending());
    }
    let now = state.received(n);
    if n < state.pending().len() {
        if now.buffer.len() == 0 {
            lemma_no_queued(now);
        }
        assert(now.pending()[0] == state.pending()[n as int]);
    }
}

/// Closing loses nothing: what was buffered stays drainable in its order, and
/// every send that waited has its value to hand back.
pub proof fn law_close_hands_values_back<T>(state: MpscState<T>)
    requires
        state.wf(),
    ensures
        state.close().wf(),
        state.close().pending() == state.buffer,
        forall|i: int|
            0 <= i < state.blocked.len() && (#[trigger] state.blocked[i]).state is Queued
                ==> state.close().blocked[i].state == BlockedState::Failed(
                state.blocked[i].state->Queued_0,
            ),
{
    let after = state.close();
    assert(after.wf());
    lemma_no_queued(after);
}

} // verus!

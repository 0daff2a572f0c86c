//! A watch channel: a single shared value, one sender, many receivers that
//! observe changes through a version counter.
//!
//! A send replaces the value and marks it changed; it fails once no receivers
//! remain. A receiver's `changed` waits for the next change and completes
//! instantly when the receiver has already fallen behind.
//!
//! While any borrow guard is alive a send parks behind it and commits when the
//! last guard drops. Parked sends commit in queue order.

use vstd::prelude::*;

use super::waiter::{Round, WaiterId, WaiterIds};

verus! {

/// One receiver slot inside the core. Ids are 1-based, so the slot of `id`
/// stands at index `id - 1`; freed ids are recycled.
#[derive(Debug, Clone, Copy)]
pub struct Rx {
    pub version: u64,
    pub awaiting: bool,
    pub waiter: Option<WaiterId>,
    pub alive: bool,
}

/// What a parked operation is.
#[derive(Debug, Clone, Copy, PartialEq, Eq, Structural)]
pub enum PendingKind {
    /// Fails when all receivers vanish meanwhile.
    Send,
    /// [`WatchCore::send_replace`]: never fails, also records the old value.
    Replace,
}

/// How far a parked operation has come.
#[derive(Debug)]
pub enum PendingState<T> {
    /// Waiting for the last guard to drop.
    Queued(T),
    /// Committed in place of this old value; the sender may proceed.
    Committed(T),
    /// All receivers vanished meanwhile; the value goes back.
    Failed(T),
}

/// A send parked behind outstanding borrow guards.
#[derive(Debug)]
pub struct Pending<T> {
    pub waiter: WaiterId,
    pub kind: PendingKind,
    pub state: PendingState<T>,
}

/// The channel as a mathematical value.
#[verifier::ext_equal]
pub struct WatchState<T> {
    pub value: T,
    pub version: nat,
    /// Borrow guards that are out.
    pub readers: nat,
    /// Parked operations, oldest first.
    pub queue: Seq<Pending<T>>,
    pub receivers: Seq<Rx>,
    pub sender_alive: bool,
    /// Waiter ids handed out so far.
    pub issued: nat,
}

/// How many of these slots hold a live receiver.
pub open spec fn live_count(receivers: Seq<Rx>) -> nat
    decreases receivers.len(),
{
    if receivers.len() == 0 {
        0
    } else {
        live_count(receivers.drop_last()) + if receivers.last().alive {
            1nat
        } else {
            0
        }
    }
}

/// The ids of the live receivers, ascending.
pub open spec fn live_ids(receivers: Seq<Rx>) -> Seq<u64>
    decreases receivers.len(),
{
    if receivers.len() == 0 {
        Seq::empty()
    } else if receivers.last().alive {
        live_ids(receivers.drop_last()).push(receivers.len() as u64)
    } else {
        live_ids(receivers.drop_last())
    }
}

/// Index of the first slot without a live receiver; the number of slots if
/// there is none.
pub open spec fn free_slot(receivers: Seq<Rx>) -> int
    decreases receivers.len(),
{
    if receivers.len() == 0 {
        0
    } else {
        let before = free_slot(receivers.drop_last());
        if before < receivers.len() - 1 || !receivers.last().alive {
            before
        } else {
            receivers.len() as int
        }
    }
}

/// The values that wait for the guards to go, in commit order.
pub open spec fn queued_values<T>(queue: Seq<Pending<T>>) -> Seq<T>
    decreases queue.len(),
{
    if queue.len() == 0 {
        Seq::empty()
    } else {
        match queue.last().state {
            PendingState::Queued(value) => queued_values(queue.drop_last()).push(value),
            _ => queued_values(queue.drop_last()),
        }
    }
}

/// The values that parked operations still hold: those that wait and those
/// that failed, in queue order.
pub open spec fn held_values<T>(queue: Seq<Pending<T>>) -> Seq<T>
    decreases queue.len(),
{
    if queue.len() == 0 {
        Seq::empty()
    } else {
        match queue.last().state {
            PendingState::Queued(value) => held_values(queue.drop_last()).push(value),
            PendingState::Failed(value) => held_values(queue.drop_last()).push(value),
            PendingState::Committed(_) => held_values(queue.drop_last()),
        }
    }
}

/// Position of the operation parked under `waiter`; the queue's length if
/// there is none.
pub open spec fn position_of<T>(queue: Seq<Pending<T>>, waiter: WaiterId) -> int
    decreases queue.len(),
{
    if queue.len() == 0 {
        0
    } else {
        let before = position_of(queue.drop_last(), waiter);
        if before < queue.len() - 1 || queue.last().waiter == waiter {
            before
        } else {
            queue.len() as int
        }
    }
}

/// A receiver after a commit brought the value to `version`: one that was
/// parked in `changed` has been woken, and has seen it.
pub open spec fn woken(rx: Rx, version: nat) -> Rx {
    if rx.awaiting {
        Rx { version: version as u64, awaiting: false, waiter: None, ..rx }
    } else {
        rx
    }
}

impl<T> WatchState<T> {
    /// True if `id` names a live receiver.
    pub open spec fn live(self, id: u64) -> bool {
        1 <= id <= self.receivers.len() && self.receivers[id - 1].alive
    }

    /// The slot of receiver `id`.
    pub open spec fn rx(self, id: u64) -> Rx {
        self.receivers[id - 1]
    }

    /// Number of live receivers.
    pub open spec fn receiver_count(self) -> nat {
        live_count(self.receivers)
    }

    /// Whether some parked operation still waits for the guards to go. One
    /// that was settled and not yet collected does not.
    pub open spec fn any_queued(self) -> bool {
        exists|i: int| 0 <= i < self.queue.len() && (#[trigger] self.queue[i]).state is Queued
    }

    /// One guard fewer is out.
    pub open spec fn unguarded(self) -> Self {
        WatchState {
            readers: if self.readers == 0 {
                0
            } else {
                (self.readers - 1) as nat
            },
            ..self
        }
    }

    /// Whether an operation that waited before has failed in `after`.
    pub open spec fn refused_by(self, after: Self) -> bool {
        exists|i: int|
            0 <= i < self.queue.len() && (#[trigger] self.queue[i]).state is Queued
                && after.queue[i].state is Failed
    }

    /// The state with another slot in place of `id`'s.
    pub open spec fn with_rx(self, id: u64, rx: Rx) -> Self {
        WatchState { receivers: self.receivers.update(id - 1, rx), ..self }
    }

    /// A receiver that has seen `version` was added: it takes the first free
    /// slot.
    pub open spec fn with_receiver(self, version: u64) -> Self {
        let rx = Rx { version, awaiting: false, waiter: None, alive: true };
        let free = free_slot(self.receivers);
        if free < self.receivers.len() {
            WatchState { receivers: self.receivers.update(free, rx), ..self }
        } else {
            WatchState { receivers: self.receivers.push(rx), ..self }
        }
    }

    /// The value was marked changed: every receiver parked in `changed` wakes
    /// up to date.
    pub open spec fn bump(self) -> Self {
        WatchState {
            version: self.version + 1,
            receivers: self.receivers.map_values(|rx: Rx| woken(rx, self.version + 1)),
            ..self
        }
    }

    /// The value was replaced and marked changed.
    pub open spec fn commit(self, value: T) -> Self {
        WatchState { value, ..self.bump() }
    }

    /// An operation joined the queue.
    pub open spec fn park(self, kind: PendingKind, value: T) -> Self {
        WatchState {
            queue: self.queue.push(
                Pending {
                    waiter: WaiterId((self.issued + 1) as u64),
                    kind,
                    state: PendingState::Queued(value),
                },
            ),
            issued: self.issued + 1,
            ..self
        }
    }

    /// The operation at position `i` left the queue.
    pub open spec fn without(self, i: int) -> Self {
        WatchState { queue: self.queue.remove(i), ..self }
    }

    /// The operation at position `i` was settled, if it still waited: a send
    /// that nobody would see fails, everything else commits.
    pub open spec fn settle(self, i: int) -> Self {
        let pending = self.queue[i];
        match pending.state {
            PendingState::Queued(value) => {
                if pending.kind is Send && self.receiver_count() == 0 {
                    let settled = Pending { state: PendingState::Failed(value), ..pending };
                    WatchState { queue: self.queue.update(i, settled), ..self }
                } else {
                    let settled = Pending { state: PendingState::Committed(self.value), ..pending };
                    WatchState { queue: self.queue.update(i, settled), ..self.commit(value) }
                }
            },
            _ => self,
        }
    }

    /// The first `n` operations of the queue were settled, in queue order.
    pub open spec fn settle_first(self, n: nat) -> Self
        decreases n,
    {
        if n == 0 {
            self
        } else {
            self.settle_first((n - 1) as nat).settle(n - 1)
        }
    }

    /// The state once parked operations had their chance: they settle in queue
    /// order if no guard is out.
    pub open spec fn drained(self) -> Self {
        if self.readers > 0 {
            self
        } else {
            self.settle_first(self.queue.len())
        }
    }

    /// The state in which a parked operation is looked up: if it still waits,
    /// the queue gets its chance first.
    pub open spec fn polled(self, waiter: WaiterId) -> Self {
        let i = position_of(self.queue, waiter);
        if i < self.queue.len() && self.queue[i].state is Queued {
            self.drained()
        } else {
            self
        }
    }

    /// What every operation keeps: the slots and the versions still to come
    /// can be counted, no receiver has seen more than there is, a receiver
    /// parked in `changed` is alive and up to date, a dead one waits for
    /// nothing, operations are parked in the order of their ids, and only a
    /// send can fail.
    pub open spec fn wf(self) -> bool {
        &&& self.version + queued_values(self.queue).len() <= u64::MAX
        &&& self.receivers.len() <= usize::MAX
        &&& forall|i: int| 0 <= i < self.receivers.len()
            ==> (#[trigger] self.receivers[i]).version <= self.version
        &&& forall|i: int| 0 <= i < self.receivers.len()
            ==> (#[trigger] self.receivers[i]).awaiting ==> {
            &&& self.receivers[i].alive
            &&& self.receivers[i].waiter is Some
            &&& self.receivers[i].version == self.version
        }
        &&& forall|i: int| 0 <= i < self.queue.len()
            ==> 1 <= (#[trigger] self.queue[i]).waiter.0 <= self.issued
        &&& forall|i: int, j: int|
            #![trigger self.queue[i], self.queue[j]]
            0 <= i < j < self.queue.len() ==> self.queue[i].waiter.0 < self.queue[j].waiter.0
        &&& forall|i: int| 0 <= i < self.queue.len()
            ==> (#[trigger] self.queue[i]).state is Failed ==> self.queue[i].kind is Send
    }
}

/// A call on a channel.
pub enum WatchOp<T> {
    Send(T),
    SendReplace(T),
    PollSend(WaiterId),
    PollReplace(WaiterId),
    CancelSend(WaiterId),
    /// A modification that makes the value this one, and says whether that is
    /// a change.
    Modify { value: T, changed: bool },
    MarkChanged,
    BeginBorrow,
    EndBorrow,
    DropSender,
    Subscribe,
    CloneReceiver(u64),
    DropReceiver(u64),
    PollChanged(u64),
    PollChangedWait(u64, WaiterId),
    CancelChanged(u64),
    MarkUnchanged(u64),
    MarkSeen(u64),
}

impl<T> WatchState<T> {
    /// Whether a replacement commits at once.
    pub open spec fn clear(self) -> bool {
        self.readers == 0 && !self.any_queued()
    }

    /// The state after a parked operation was looked up: its outcome, if it
    /// has one, is handed out.
    pub open spec fn collected(self, waiter: WaiterId) -> Self {
        let now = self.polled(waiter);
        let i = position_of(self.queue, waiter);
        if i < self.queue.len() && !(now.queue[i].state is Queued) {
            now.without(i)
        } else {
            now
        }
    }

    /// Receiver `id` is up to date and waits for nothing.
    pub open spec fn caught_up(self, id: u64) -> Self {
        self.with_rx(
            id,
            Rx { version: self.version as u64, awaiting: false, waiter: None, alive: true },
        )
    }

    /// The state after a call.
    pub open spec fn after(self, op: WatchOp<T>) -> Self {
        match op {
            WatchOp::Send(value) => if self.receiver_count() == 0 {
                self
            } else if self.clear() {
                self.commit(value)
            } else {
                self.park(PendingKind::Send, value)
            },
            WatchOp::SendReplace(value) => if self.clear() {
                self.commit(value)
            } else {
                self.park(PendingKind::Replace, value)
            },
            WatchOp::PollSend(waiter) => self.collected(waiter),
            WatchOp::PollReplace(waiter) => self.collected(waiter),
            WatchOp::CancelSend(waiter) => {
                let i = position_of(self.queue, waiter);
                if i < self.queue.len() {
                    self.without(i)
                } else {
                    self
                }
            },
            WatchOp::Modify { value, changed } => if self.readers > 0 || self.queue.len() > 0 {
                self
            } else if changed {
                self.commit(value)
            } else {
                WatchState { value, ..self }
            },
            WatchOp::MarkChanged => self.bump(),
            WatchOp::BeginBorrow => WatchState { readers: self.readers + 1, ..self },
            WatchOp::EndBorrow => self.unguarded().drained(),
            WatchOp::DropSender => WatchState { sender_alive: false, ..self },
            WatchOp::Subscribe => self.with_receiver(self.version as u64),
            WatchOp::CloneReceiver(source) => if self.live(source) {
                self.with_receiver(self.rx(source).version)
            } else {
                self
            },
            WatchOp::DropReceiver(id) => if self.live(id) {
                self.with_rx(
                    id,
                    Rx { alive: false, awaiting: false, waiter: None, ..self.rx(id) },
                )
            } else {
                self
            },
            WatchOp::PollChanged(id) => if !self.live(id) {
                self
            } else if self.rx(id).version < self.version {
                self.caught_up(id)
            } else if !self.sender_alive {
                self
            } else {
                match self.rx(id).waiter {
                    Some(_) => self.with_rx(id, Rx { awaiting: true, ..self.rx(id) }),
                    None => {
                        let waiter = Some(WaiterId((self.issued + 1) as u64));
                        WatchState {
                            issued: self.issued + 1,
                            ..self.with_rx(id, Rx { awaiting: true, waiter, ..self.rx(id) })
                        }
                    },
                }
            },
            WatchOp::PollChangedWait(id, _) => if self.live(id) && self.rx(id).version
                < self.version {
                self.caught_up(id)
            } else {
                self
            },
            WatchOp::CancelChanged(id) => if self.live(id) {
                self.with_rx(id, Rx { awaiting: false, waiter: None, ..self.rx(id) })
            } else {
                self
            },
            WatchOp::MarkUnchanged(id) => if self.live(id) {
                self.caught_up(id)
            } else {
                self
            },
            WatchOp::MarkSeen(id) => if self.live(id) {
                self.with_rx(id, Rx { version: self.version as u64, ..self.rx(id) })
            } else {
                self
            },
        }
    }
}

/// The pure state machine behind a watch channel.
#[derive(Debug)]
pub struct WatchCore<T> {
    value: T,
    version: u64,
    readers: usize,
    queue: Vec<Pending<T>>,
    receivers: Vec<Rx>,
    live_receivers: usize,
    sender_alive: bool,
    waiters: WaiterIds,
}

/// Outcome of [`WatchCore::send`]: the modelling of one blocking send.
#[derive(Debug, PartialEq, Eq)]
pub enum SendOffer<T> {
    /// The value was committed immediately.
    Sent,
    /// Borrow guards are out; the value is parked with this identity.
    Blocked { waiter: WaiterId },
    /// No receivers remain; the value comes back.
    Rejected(T),
}

/// Re-check of a parked send, via [`WatchCore::poll_send`].
#[derive(Debug, PartialEq, Eq)]
pub enum SendPoll<T> {
    /// The value was committed; the sender may proceed.
    Sent,
    /// Still parked behind a borrow guard.
    Pending,
    /// All receivers vanished; the value comes back.
    Failed(T),
    /// No operation is parked under this identity: it was cancelled, or its
    /// outcome was already handed out.
    Cancelled,
}

/// Outcome of [`WatchCore::send_replace`].
#[derive(Debug, PartialEq, Eq)]
pub enum ReplaceOffer<T> {
    /// The new value was committed immediately; the old one is returned.
    Replaced(T),
    /// The new value is parked behind borrow guards.
    Queued { waiter: WaiterId },
}

/// Re-check of a parked replace, via [`WatchCore::poll_replace`].
#[derive(Debug, PartialEq, Eq)]
pub enum ReplacePoll<T> {
    /// The value was committed; the previously visible value is returned.
    Replaced(T),
    /// Still parked behind a borrow guard.
    Pending,
    /// No operation is parked under this identity.
    Cancelled,
}

/// Outcome of [`WatchCore::end_borrow`].
#[derive(Debug, Clone, Copy, PartialEq, Eq, Structural)]
pub enum BorrowRelease {
    /// More guards are out, or nothing was parked.
    Released,
    /// Parked sends committed as the guards went away.
    Resolved,
    /// At least one parked send failed: all receivers vanished meanwhile.
    Refused,
}

/// Outcome of the core `changed` polls: the predicate behind a blocking
/// `changed`.
#[derive(Debug, Clone, Copy, PartialEq, Eq, Structural)]
pub enum ChangePoll {
    /// The receiver was behind and has caught up.
    Immediate,
    /// Up to date; keep waiting with this identity.
    Blocked { waiter: WaiterId },
    /// The sender is gone and nothing new will arrive.
    Closed,
}

/// The send failed because no receivers remain; the value comes back.
#[derive(Debug, PartialEq, Eq)]
pub struct SendError<T>(pub T);

/// Waiting for a change failed: the sender is gone.
#[derive(Debug, Clone, Copy, PartialEq, Eq, Structural)]
pub struct RecvError;

impl<T> View for WatchCore<T> {
    type V = WatchState<T>;

    closed spec fn view(&self) -> WatchState<T> {
        WatchState {
            value: self.value,
            version: self.version as nat,
            readers: self.readers as nat,
            queue: self.queue@,
            receivers: self.receivers@,
            sender_alive: self.sender_alive,
            issued: self.waiters.next as nat,
        }
    }
}

impl<T> WatchCore<T> {
    /// The invariant that every operation keeps.
    pub closed spec fn wf(&self) -> bool {
        &&& self.sound()
        &&& self.readers == 0 ==> !self@.any_queued()
    }

    /// The part of the invariant that also holds while the queue settles.
    closed spec fn sound(&self) -> bool {
        &&& self@.wf()
        &&& self.live_receivers == self@.receiver_count()
    }

    /// The invariant of the model is part of the core's, and an operation only
    /// waits while guards are out.
    pub proof fn lemma_wf(&self)
        requires
            self.wf(),
        ensures
            self@.wf(),
            self@.readers == 0 ==> !self@.any_queued(),
    {
    }

    /// A channel holding `initial` at version 0, with one receiver already
    /// subscribed.
    pub fn new(initial: T) -> (core: Self)
        ensures
            core.wf(),
            core@ == (WatchState {
                value: initial,
                version: 0,
                readers: 0,
                queue: Seq::empty(),
                receivers: seq![Rx { version: 0, awaiting: false, waiter: None, alive: true }],
                sender_alive: true,
                issued: 0,
            }),
            live_ids(core@.receivers) == seq![1u64],
    {
        let mut core = WatchCore {
            value: initial,
            version: 0,
            readers: 0,
            queue: Vec::new(),
            receivers: Vec::new(),
            live_receivers: 0,
            sender_alive: true,
            waiters: WaiterIds { next: 0 },
        };
        core.subscribe();
        assert(core@.receivers =~= seq![
            Rx { version: 0, awaiting: false, waiter: None, alive: true },
        ]);
        assert(core@.receivers.drop_last() =~= Seq::empty());
        assert(live_ids(core@.receivers) =~= seq![1u64]) by {
            assert(live_ids(core@.receivers.drop_last()) =~= Seq::empty());
        }
        core
    }

    /// Send a replacement value.
    pub fn send(&mut self, value: T) -> (offer: SendOffer<T>)
        requires
            old(self).wf(),
            old(self)@.issued < u64::MAX,
            old(self)@.version + queued_values(old(self)@.queue).len() < u64::MAX,
        ensures
            final(self).wf(),
            final(self)@ == old(self)@.after(WatchOp::Send(value)),
            match offer {
                SendOffer::Rejected(back) => {
                    &&& old(self)@.receiver_count() == 0
                    &&& back == value
                    &&& final(self)@ == old(self)@
                },
                SendOffer::Sent => {
                    &&& old(self)@.receiver_count() > 0
                    &&& old(self)@.readers == 0
                    &&& !old(self)@.any_queued()
                    &&& final(self)@ == old(self)@.commit(value)
                },
                SendOffer::Blocked { waiter } => {
                    &&& old(self)@.receiver_count() > 0
                    &&& old(self)@.readers > 0 || old(self)@.any_queued()
                    &&& waiter.0 == old(self)@.issued + 1
                    &&& final(self)@ == old(self)@.park(PendingKind::Send, value)
                },
            },
    {
        if self.live_receivers == 0 {
            return SendOffer::Rejected(value);
        }
        if self.readers == 0 && !self.any_queued() {
            let _old = self.swap(value);
            return SendOffer::Sent;
        }
        let waiter = self.park(PendingKind::Send, value);
        SendOffer::Blocked { waiter }
    }

    /// Replace the value; never fails, even with zero receivers.
    pub fn send_replace(&mut self, value: T) -> (offer: ReplaceOffer<T>)
        requires
            old(self).wf(),
            old(self)@.issued < u64::MAX,
            old(self)@.version + queued_values(old(self)@.queue).len() < u64::MAX,
        ensures
            final(self).wf(),
            final(self)@ == old(self)@.after(WatchOp::SendReplace(value)),
            match offer {
                ReplaceOffer::Replaced(old_value) => {
                    &&& old(self)@.readers == 0
                    &&& !old(self)@.any_queued()
                    &&& old_value == old(self)@.value
                    &&& final(self)@ == old(self)@.commit(value)
                },
                ReplaceOffer::Queued { waiter } => {
                    &&& old(self)@.readers > 0 || old(self)@.any_queued()
                    &&& waiter.0 == old(self)@.issued + 1
                    &&& final(self)@ == old(self)@.park(PendingKind::Replace, value)
                },
            },
    {
        if self.readers == 0 && !self.any_queued() {
            return ReplaceOffer::Replaced(self.swap(value));
        }
        let waiter = self.park(PendingKind::Replace, value);
        ReplaceOffer::Queued { waiter }
    }

    /// Put an operation at the end of the queue.
    fn park(&mut self, kind: PendingKind, value: T) -> (waiter: WaiterId)
        requires
            old(self).wf(),
            old(self)@.readers > 0,
            old(self)@.issued < u64::MAX,
            old(self)@.version + queued_values(old(self)@.queue).len() < u64::MAX,
        ensures
            final(self).wf(),
            waiter.0 == old(self)@.issued + 1,
            final(self)@ == old(self)@.park(kind, value),
    {
        let waiter = self.waiters.allocate();
        self.queue.push(Pending { waiter, kind, state: PendingState::Queued(value) });
        proof {
            assert(self.queue@.drop_last() =~= old(self).queue@);
        }
        waiter
    }

    /// Re-check a parked send, resolving it once the guards are gone. An
    /// outcome is handed out once: the entry leaves the queue with it.
    pub fn poll_send(&mut self, waiter: WaiterId) -> (poll: SendPoll<T>)
        requires
            old(self).wf(),
        ensures
            final(self).wf(),
            final(self)@ == old(self)@.after(WatchOp::PollSend(waiter)),
            ({
                let now = old(self)@.polled(waiter);
                let i = position_of(old(self)@.queue, waiter);
                match poll {
                    SendPoll::Cancelled => {
                        &&& i == old(self)@.queue.len()
                        &&& final(self)@ == old(self)@
                    },
                    SendPoll::Pending => {
                        &&& i < old(self)@.queue.len()
                        &&& now.queue[i].state is Queued
                        &&& final(self)@ == now
                    },
                    SendPoll::Sent => {
                        &&& i < old(self)@.queue.len()
                        &&& now.queue[i].state is Committed
                        &&& final(self)@ == now.without(i)
                    },
                    SendPoll::Failed(value) => {
                        &&& i < old(self)@.queue.len()
                        &&& now.queue[i].state == PendingState::Failed(value)
                        &&& final(self)@ == now.without(i)
                    },
                }
            }),
    {
        let i: usize = match self.position(waiter) {
            Some(i) => i,
            None => {
                return SendPoll::Cancelled;
            },
        };
        self.give_chance(i, Ghost(waiter));
        match self.queue[i].state {
            PendingState::Queued(_) => {
                return SendPoll::Pending;
            },
            _ => {},
        }
        proof {
            lemma_remove_keeps_queued(self.queue@, i as int);
        }
        let pending = self.queue.remove(i);
        match pending.state {
            PendingState::Failed(value) => SendPoll::Failed(value),
            _ => SendPoll::Sent,
        }
    }

    /// Re-check a parked replace. A replace never fails, so the operation
    /// under `waiter` must not be a send that did or would.
    pub fn poll_replace(&mut self, waiter: WaiterId) -> (poll: ReplacePoll<T>)
        requires
            old(self).wf(),
            ({
                let i = position_of(old(self)@.queue, waiter);
                i < old(self)@.queue.len() ==> !(old(self)@.polled(waiter).queue[i].state is Failed)
            }),
        ensures
            final(self).wf(),
            final(self)@ == old(self)@.after(WatchOp::PollReplace(waiter)),
            ({
                let now = old(self)@.polled(waiter);
                let i = position_of(old(self)@.queue, waiter);
                match poll {
                    ReplacePoll::Cancelled => {
                        &&& i == old(self)@.queue.len()
                        &&& final(self)@ == old(self)@
                    },
                    ReplacePoll::Pending => {
                        &&& i < old(self)@.queue.len()
                        &&& now.queue[i].state is Queued
                        &&& final(self)@ == now
                    },
                    ReplacePoll::Replaced(old_value) => {
                        &&& i < old(self)@.queue.len()
                        &&& now.queue[i].state == PendingState::Committed(old_value)
                        &&& final(self)@ == now.without(i)
                    },
                }
            }),
    {
        let i: usize = match self.position(waiter) {
            Some(i) => i,
            None => {
                return ReplacePoll::Cancelled;
            },
        };
        self.give_chance(i, Ghost(waiter));
        match self.queue[i].state {
            PendingState::Queued(_) => {
                return ReplacePoll::Pending;
            },
            _ => {},
        }
        proof {
            lemma_remove_keeps_queued(self.queue@, i as int);
        }
        let pending = self.queue.remove(i);
        match pending.state {
            PendingState::Committed(old_value) => ReplacePoll::Replaced(old_value),
            PendingState::Queued(value) | PendingState::Failed(value) => {
                assert(false);
                ReplacePoll::Replaced(value)
            },
        }
    }

    /// Let the queue settle if the operation at `i` still waits.
    fn give_chance(&mut self, i: usize, waiter: Ghost<WaiterId>)
        requires
            old(self).wf(),
            i < old(self)@.queue.len(),
            i == position_of(old(self)@.queue, waiter@),
        ensures
            final(self).wf(),
            final(self)@ == old(self)@.polled(waiter@),
            final(self)@.queue.len() == old(self)@.queue.len(),
            final(self)@.queue[i as int].kind == old(self)@.queue[i as int].kind,
    {
        match self.queue[i].state {
            PendingState::Queued(_) => {
                self.drain_if_clear();
            },
            _ => {},
        }
    }

    /// Cancel a parked send or replace, handing its value back: `None` if
    /// nothing is parked under `waiter` or the value was committed.
    pub fn cancel_send(&mut self, waiter: WaiterId) -> (back: Option<T>)
        requires
            old(self).wf(),
        ensures
            final(self).wf(),
            final(self)@ == old(self)@.after(WatchOp::CancelSend(waiter)),
            ({
                let i = position_of(old(self)@.queue, waiter);
                if i < old(self)@.queue.len() {
                    &&& final(self)@ == old(self)@.without(i)
                    &&& back == match old(self)@.queue[i].state {
                        PendingState::Queued(value) => Some(value),
                        PendingState::Failed(value) => Some(value),
                        PendingState::Committed(_) => None,
                    }
                } else {
                    final(self)@ == old(self)@ && back is None
                }
            }),
    {
        let i: usize = match self.position(waiter) {
            Some(i) => i,
            None => {
                return None;
            },
        };
        proof {
            lemma_remove_queued_len(self.queue@, i as int);
        }
        let pending = self.queue.remove(i);
        match pending.state {
            PendingState::Queued(value) | PendingState::Failed(value) => Some(value),
            PendingState::Committed(_) => None,
        }
    }

    /// Apply a modification when no guards are out and nothing is parked;
    /// otherwise hand the closure back. `Ok(true)` marks the value changed.
    pub fn try_modify<F: FnOnce(&mut T) -> bool>(&mut self, f: F) -> (result: Result<bool, F>)
        requires
            old(self).wf(),
            old(self)@.version + queued_values(old(self)@.queue).len() < u64::MAX,
            forall|value: &mut T| *value == old(self)@.value ==> call_requires(f, (value,)),
        ensures
            final(self).wf(),
            final(self)@ == old(self)@.after(
                WatchOp::Modify {
                    value: final(self)@.value,
                    changed: result == Ok::<bool, F>(true),
                },
            ),
            result is Err <==> old(self)@.readers > 0 || old(self)@.queue.len() > 0,
            result matches Err(back) ==> back == f && final(self)@ == old(self)@,
            result matches Ok(changed) ==> final(self)@ == if changed {
                old(self)@.commit(final(self)@.value)
            } else {
                WatchState { value: final(self)@.value, ..old(self)@ }
            },
            result == Ok::<bool, F>(true) ==> exists|place: &mut T|
                *place == old(self)@.value && *final(place) == final(self)@.value
                    && #[trigger] call_ensures(f, (place,), true),
            result == Ok::<bool, F>(false) ==> exists|place: &mut T|
                *place == old(self)@.value && *final(place) == final(self)@.value
                    && #[trigger] call_ensures(f, (place,), false),
    {
        if self.readers > 0 || self.queue.len() > 0 {
            return Err(f);
        }
        let changed = run(f, &mut self.value);
        let ghost before = self@;
        if changed {
            self.version = self.version + 1;
            self.catch_up_awaiting(Ghost(before));
            Ok(true)
        } else {
            Ok(false)
        }
    }

    /// Mark the value changed without modifying it.
    pub fn mark_changed(&mut self)
        requires
            old(self).wf(),
            old(self)@.version + queued_values(old(self)@.queue).len() < u64::MAX,
        ensures
            final(self).wf(),
            final(self)@ == old(self)@.after(WatchOp::MarkChanged),
            final(self)@ == old(self)@.bump(),
    {
        self.version = self.version + 1;
        self.catch_up_awaiting(Ghost(old(self)@));
    }

    /// A borrow guard was taken.
    pub fn begin_borrow(&mut self)
        requires
            old(self).wf(),
            old(self)@.readers < usize::MAX,
        ensures
            final(self).wf(),
            final(self)@ == old(self)@.after(WatchOp::BeginBorrow),
            final(self)@ == (WatchState { readers: old(self)@.readers + 1, ..old(self)@ }),
    {
        self.readers = self.readers + 1;
    }

    /// A borrow guard was dropped. Parked sends commit in queue order as the
    /// last guard goes away.
    pub fn end_borrow(&mut self) -> (release: BorrowRelease)
        requires
            old(self).wf(),
        ensures
            final(self).wf(),
            final(self)@ == old(self)@.after(WatchOp::EndBorrow),
            final(self)@ == old(self)@.unguarded().drained(),
            release is Released <==> old(self)@.unguarded().readers > 0 || !old(self)@.any_queued(),
            release is Refused <==> old(self)@.refused_by(final(self)@),
    {
        if self.readers > 0 {
            self.readers = self.readers - 1;
        }
        let ghost left = self@;
        assert(left =~= old(self)@.unguarded());
        if self.readers > 0 {
            return BorrowRelease::Released;
        }
        if !self.any_queued() {
            proof {
                lemma_settle_nothing(self@, self@.queue.len());
            }
            return BorrowRelease::Released;
        }
        assert(self.live_receivers == left.receiver_count());
        let refused = self.live_receivers == 0 && self.any_queued_send();
        self.drain_if_clear();
        proof {
            assert forall|i: int|
                0 <= i < left.queue.len() && (#[trigger] left.queue[i]).state is Queued implies (
            self@.queue[i].state is Failed <==> left.queue[i].kind is Send
                && left.receiver_count() == 0) by {
                lemma_settled(left, left.queue.len(), i);
            }
            if refused {
                let i = choose|i: int|
                    0 <= i < left.queue.len() && (#[trigger] left.queue[i]).state is Queued
                        && left.queue[i].kind is Send;
                assert(left.queue[i].state is Queued && self@.queue[i].state is Failed);
            }
            assert forall|i: int| 0 <= i < self@.queue.len() implies !((
            #[trigger] self@.queue[i]).state is Queued) by {
                lemma_settled(left, left.queue.len(), i);
            }
        }
        if refused {
            BorrowRelease::Refused
        } else {
            BorrowRelease::Resolved
        }
    }

    /// Whether some parked operation still waits.
    fn any_queued(&self) -> (any: bool)
        ensures
            any == self@.any_queued(),
    {
        let mut i: usize = 0;
        while i < self.queue.len()
            invariant
                i <= self.queue.len(),
                forall|k: int| 0 <= k < i ==> !((#[trigger] self@.queue[k]).state is Queued),
            decreases self.queue.len() - i,
        {
            match self.queue[i].state {
                PendingState::Queued(_) => {
                    assert(self@.queue[i as int].state is Queued);
                    return true;
                },
                _ => {},
            }
            i = i + 1;
        }
        false
    }

    /// Whether some send, and no mere replace, still waits.
    fn any_queued_send(&self) -> (any: bool)
        ensures
            any <==> exists|i: int|
                0 <= i < self@.queue.len() && (#[trigger] self@.queue[i]).state is Queued
                    && self@.queue[i].kind is Send,
    {
        let mut i: usize = 0;
        while i < self.queue.len()
            invariant
                i <= self.queue.len(),
                forall|k: int|
                    0 <= k < i ==> !((#[trigger] self@.queue[k]).state is Queued
                        && self@.queue[k].kind is Send),
            decreases self.queue.len() - i,
        {
            let kind = self.queue[i].kind;
            match self.queue[i].state {
                PendingState::Queued(_) => {
                    if kind == PendingKind::Send {
                        assert(self@.queue[i as int].state is Queued);
                        return true;
                    }
                },
                _ => {},
            }
            i = i + 1;
        }
        false
    }

    /// The sender handle was dropped.
    pub fn drop_sender(&mut self)
        requires
            old(self).wf(),
        ensures
            final(self).wf(),
            final(self)@ == old(self)@.after(WatchOp::DropSender),
            final(self)@ == (WatchState { sender_alive: false, ..old(self)@ }),
    {
        self.sender_alive = false;
    }

    fn position(&self, waiter: WaiterId) -> (found: Option<usize>)
        ensures
            match found {
                Some(i) => i < self@.queue.len() && i == position_of(self@.queue, waiter),
                None => position_of(self@.queue, waiter) == self@.queue.len(),
            },
    {
        let mut i: usize = 0;
        assert(self.queue@.take(0) =~= Seq::empty());
        while i < self.queue.len()
            invariant
                i <= self.queue.len(),
                position_of(self.queue@.take(i as int), waiter) == i,
            decreases self.queue.len() - i,
        {
            proof {
                assert(self.queue@.take(i + 1).drop_last() =~= self.queue@.take(i as int));
                lemma_position_prefix(self.queue@, waiter, i + 1);
            }
            if self.queue[i].waiter == waiter {
                return Some(i);
            }
            i = i + 1;
        }
        assert(self.queue@.take(i as int) =~= self.queue@);
        None
    }

    /// Commit a value and hand the old one back.
    fn swap(&mut self, value: T) -> (old_value: T)
        requires
            old(self).sound(),
            old(self)@.version + queued_values(old(self)@.queue).len() < u64::MAX,
        ensures
            final(self).sound(),
            old_value == old(self)@.value,
            final(self)@ == old(self)@.commit(value),
    {
        let mut other = value;
        core::mem::swap(&mut self.value, &mut other);
        let ghost before = self@;
        self.version = self.version + 1;
        self.catch_up_awaiting(Ghost(before));
        other
    }

    /// Wake every receiver parked in `changed`. `before` is the state whose
    /// version was just counted up.
    fn catch_up_awaiting(&mut self, before: Ghost<WatchState<T>>)
        requires
            before@.wf(),
            before@.version + queued_values(before@.queue).len() < u64::MAX,
            old(self)@ == (WatchState { version: before@.version + 1, ..before@ }),
            old(self).live_receivers == old(self)@.receiver_count(),
        ensures
            final(self).sound(),
            final(self)@ == before@.bump(),
    {
        let current: u64 = self.version;
        let mut i: usize = 0;
        while i < self.receivers.len()
            invariant
                i <= self.receivers.len(),
                current == before@.version + 1,
                self@ == (WatchState {
                    version: before@.version + 1,
                    receivers: self.receivers@,
                    ..before@
                }),
                self.receivers.len() == before@.receivers.len(),
                self.live_receivers == live_count(before@.receivers),
                forall|k: int| 0 <= k < i ==> #[trigger] self.receivers@[k] == woken(
                    before@.receivers[k],
                    before@.version + 1,
                ),
                forall|k: int| i <= k < self.receivers.len() ==> #[trigger] self.receivers@[k]
                    == before@.receivers[k],
            decreases self.receivers.len() - i,
        {
            let rx = self.receivers[i];
            if rx.awaiting {
                self.receivers.set(
                    i,
                    Rx { version: current, awaiting: false, waiter: None, alive: rx.alive },
                );
            }
            i = i + 1;
        }
        proof {
            assert(self@ =~= before@.bump());
            lemma_same_alive_same_count(before@.receivers, self.receivers@);
        }
    }

    /// Commit parked sends in queue order, if no guard is out.
    fn drain_if_clear(&mut self)
        requires
            old(self).sound(),
        ensures
            final(self).sound(),
            final(self)@ == old(self)@.drained(),
            final(self)@.queue.len() == old(self)@.queue.len(),
            forall|i: int| 0 <= i < old(self)@.queue.len() ==> (#[trigger] final(self)@.queue[i]).kind
                == old(self)@.queue[i].kind,
    {
        if self.readers > 0 {
            return;
        }
        let mut i: usize = 0;
        while i < self.queue.len()
            invariant
                i <= self.queue.len(),
                self.sound(),
                self.queue.len() == old(self)@.queue.len(),
                self@ == old(self)@.settle_first(i as nat),
                forall|k: int| 0 <= k < self.queue.len() ==> (#[trigger] self.queue@[k]).kind
                    == old(self)@.queue[k].kind,
            decreases self.queue.len() - i,
        {
            self.settle(i);
            i = i + 1;
        }
    }

    /// Settle the operation at `i`, if it still waits.
    fn settle(&mut self, i: usize)
        requires
            old(self).sound(),
            i < old(self)@.queue.len(),
        ensures
            final(self).sound(),
            final(self)@ == old(self)@.settle(i as int),
            final(self)@.queue.len() == old(self)@.queue.len(),
            forall|k: int| 0 <= k < old(self)@.queue.len() ==> (#[trigger] final(self)@.queue[k]).kind
                == old(self)@.queue[k].kind,
    {
        let waiter = self.queue[i].waiter;
        let kind = self.queue[i].kind;
        match self.queue[i].state {
            PendingState::Queued(_) => {},
            _ => {
                return;
            },
        }
        proof {
            lemma_remove_queued_len(self.queue@, i as int);
            lemma_queued_bound(self.queue@, i as int);
        }
        let ghost before = self@;
        let pending = self.queue.remove(i);
        match pending.state {
            PendingState::Queued(value) => {
                if kind == PendingKind::Send && self.live_receivers == 0 {
                    proof {
                        let settled = Pending {
                            waiter,
                            kind,
                            state: PendingState::Failed(value),
                        };
                        assert(before.queue.remove(i as int).insert(i as int, settled)
                            =~= before.queue.update(i as int, settled));
                        lemma_update_keeps_queued(before.queue, i as int, settled);
                    }
                    self.queue.insert(i, Pending { waiter, kind, state: PendingState::Failed(value) });
                } else {
                    let old_value = self.swap(value);
                    proof {
                        let settled = Pending {
                            waiter,
                            kind,
                            state: PendingState::Committed(old_value),
                        };
                        assert(before.queue.remove(i as int).insert(i as int, settled)
                            =~= before.queue.update(i as int, settled));
                        lemma_update_keeps_queued(before.queue, i as int, settled);
                    }
                    self.queue.insert(
                        i,
                        Pending { waiter, kind, state: PendingState::Committed(old_value) },
                    );
                }
            },
            _ => {},
        }
        assert(self@ =~= before.settle(i as int));
    }

    /// Subscribe a receiver at the current version.
    pub fn subscribe(&mut self) -> (id: u64)
        requires
            old(self).wf(),
            old(self)@.receiver_count() < usize::MAX,
        ensures
            final(self).wf(),
            final(self)@ == old(self)@.after(WatchOp::Subscribe),
            id == free_slot(old(self)@.receivers) + 1,
            final(self)@ == old(self)@.with_receiver(old(self)@.version as u64),
            final(self)@.live(id),
            final(self)@.receiver_count() == old(self)@.receiver_count() + 1,
    {
        let version: u64 = self.version;
        self.add_rx(version)
    }

    /// Clone a receiver: the clone inherits the source's seen-version but
    /// starts fresh (not awaiting).
    pub fn clone_receiver(&mut self, source: u64) -> (clone: Option<u64>)
        requires
            old(self).wf(),
            old(self)@.receiver_count() < usize::MAX,
        ensures
            final(self).wf(),
            final(self)@ == old(self)@.after(WatchOp::CloneReceiver(source)),
            match clone {
                Some(id) => {
                    &&& old(self)@.live(source)
                    &&& id == free_slot(old(self)@.receivers) + 1
                    &&& final(self)@ == old(self)@.with_receiver(old(self)@.rx(source).version)
                    &&& final(self)@.live(id)
                    &&& final(self)@.receiver_count() == old(self)@.receiver_count() + 1
                },
                None => !old(self)@.live(source) && final(self)@ == old(self)@,
            },
    {
        match self.rx_index(source) {
            Some(index) => {
                let version: u64 = self.receivers[index].version;
                Some(self.add_rx(version))
            },
            None => None,
        }
    }

    fn add_rx(&mut self, version: u64) -> (id: u64)
        requires
            old(self).wf(),
            old(self)@.receiver_count() < usize::MAX,
            version <= old(self)@.version,
        ensures
            final(self).wf(),
            id == free_slot(old(self)@.receivers) + 1,
            final(self)@ == old(self)@.with_receiver(version),
            final(self)@.live(id),
            final(self)@.receiver_count() == old(self)@.receiver_count() + 1,
    {
        let rx = Rx { version, awaiting: false, waiter: None, alive: true };
        proof {
            lemma_count_bound(self.receivers@);
        }
        let mut index: usize = 0;
        assert(self.receivers@.take(0) =~= Seq::empty());
        while index < self.receivers.len() && self.receivers[index].alive
            invariant
                index <= self.receivers.len(),
                free_slot(self.receivers@.take(index as int)) == index,
            decreases self.receivers.len() - index,
        {
            assert(self.receivers@.take(index + 1).drop_last() =~= self.receivers@.take(
                index as int,
            ));
            index = index + 1;
        }
        if index < self.receivers.len() {
            proof {
                assert(self.receivers@.take(index + 1).drop_last() =~= self.receivers@.take(
                    index as int,
                ));
                lemma_free_prefix(self.receivers@, index + 1);
                lemma_count_update(self.receivers@, index as int, rx);
            }
            self.receivers.set(index, rx);
        } else {
            proof {
                assert(self.receivers@.take(index as int) =~= self.receivers@);
                lemma_all_alive(self.receivers@);
            }
            self.receivers.push(rx);
            assert(self.receivers@.drop_last() =~= old(self).receivers@);
        }
        proof {
            lemma_count_bound(self.receivers@);
        }
        self.live_receivers = self.live_receivers + 1;
        index as u64 + 1
    }

    /// Index of a live receiver's slot.
    fn rx_index(&self, id: u64) -> (index: Option<usize>)
        ensures
            match index {
                Some(index) => self@.live(id) && index == id - 1,
                None => !self@.live(id),
            },
    {
        if id >= 1 && id <= self.receivers.len() as u64 {
            let index: usize = (id - 1) as usize;
            if self.receivers[index].alive {
                return Some(index);
            }
        }
        None
    }

    /// Put another slot in a live receiver's place.
    fn set_rx(&mut self, index: usize, rx: Rx)
        requires
            old(self).wf(),
            index < old(self)@.receivers.len(),
            old(self)@.receivers[index as int].alive,
            rx.alive,
            rx.version <= old(self)@.version,
            rx.awaiting ==> rx.waiter is Some && rx.version == old(self)@.version,
        ensures
            final(self).wf(),
            final(self)@ == (WatchState {
                receivers: old(self)@.receivers.update(index as int, rx),
                ..old(self)@
            }),
    {
        proof {
            lemma_count_update(self.receivers@, index as int, rx);
        }
        self.receivers.set(index, rx);
    }

    /// Drop a receiver slot. Dropping one that is not alive changes nothing.
    pub fn drop_receiver(&mut self, id: u64)
        requires
            old(self).wf(),
        ensures
            final(self).wf(),
            final(self)@ == old(self)@.after(WatchOp::DropReceiver(id)),
            final(self)@ == if old(self)@.live(id) {
                old(self)@.with_rx(
                    id,
                    Rx { alive: false, awaiting: false, waiter: None, ..old(self)@.rx(id) },
                )
            } else {
                old(self)@
            },
            final(self)@.receiver_count() == if old(self)@.live(id) {
                old(self)@.receiver_count() - 1
            } else {
                old(self)@.receiver_count() as int
            },
    {
        match self.rx_index(id) {
            Some(index) => {
                let rx = Rx {
                    version: self.receivers[index].version,
                    awaiting: false,
                    waiter: None,
                    alive: false,
                };
                proof {
                    lemma_count_update(self.receivers@, index as int, rx);
                }
                self.receivers.set(index, rx);
                self.live_receivers = self.live_receivers - 1;
            },
            None => {},
        }
    }

    /// Poll a receiver's `changed`, parking it when it is up to date.
    pub fn poll_changed(&mut self, id: u64) -> (poll: ChangePoll)
        requires
            old(self).wf(),
            old(self)@.issued < u64::MAX,
        ensures
            final(self).wf(),
            final(self)@ == old(self)@.after(WatchOp::PollChanged(id)),
            ({
                let before = old(self)@;
                match poll {
                    ChangePoll::Immediate => {
                        &&& before.live(id)
                        &&& before.rx(id).version < before.version
                        &&& final(self)@ == before.with_rx(
                            id,
                            Rx {
                                version: before.version as u64,
                                awaiting: false,
                                waiter: None,
                                alive: true,
                            },
                        )
                    },
                    ChangePoll::Closed => {
                        &&& before.live(id) ==> before.rx(id).version == before.version
                            && !before.sender_alive
                        &&& final(self)@ == before
                    },
                    ChangePoll::Blocked { waiter } => {
                        &&& before.live(id)
                        &&& before.rx(id).version == before.version
                        &&& before.sender_alive
                        &&& match before.rx(id).waiter {
                            Some(parked) => {
                                &&& waiter == parked
                                &&& final(self)@ == before.with_rx(
                                    id,
                                    Rx { awaiting: true, ..before.rx(id) },
                                )
                            },
                            None => {
                                &&& waiter.0 == before.issued + 1
                                &&& final(self)@ == (WatchState {
                                    issued: before.issued + 1,
                                    ..before.with_rx(
                                        id,
                                        Rx {
                                            awaiting: true,
                                            waiter: Some(waiter),
                                            ..before.rx(id)
                                        },
                                    )
                                })
                            },
                        }
                    },
                }
            }),
    {
        let index: usize = match self.rx_index(id) {
            Some(index) => index,
            None => {
                return ChangePoll::Closed;
            },
        };
        let rx = self.receivers[index];
        let current: u64 = self.version;
        if rx.version < current {
            self.set_rx(
                index,
                Rx { version: current, awaiting: false, waiter: None, alive: true },
            );
            return ChangePoll::Immediate;
        }
        if !self.sender_alive {
            return ChangePoll::Closed;
        }
        let waiter = match rx.waiter {
            Some(waiter) => waiter,
            None => self.waiters.allocate(),
        };
        self.set_rx(
            index,
            Rx { version: rx.version, awaiting: true, waiter: Some(waiter), alive: true },
        );
        ChangePoll::Blocked { waiter }
    }

    /// Re-check a waiting receiver's `changed`. A receiver that is no longer
    /// parked as `waiter` was caught up by a commit.
    pub fn poll_changed_wait(&mut self, id: u64, waiter: WaiterId) -> (poll: ChangePoll)
        requires
            old(self).wf(),
        ensures
            final(self).wf(),
            final(self)@ == old(self)@.after(WatchOp::PollChangedWait(id, waiter)),
            ({
                let before = old(self)@;
                let behind = before.rx(id).version < before.version;
                let parked = before.rx(id).awaiting && before.rx(id).waiter == Some(waiter);
                match poll {
                    ChangePoll::Immediate => {
                        &&& before.live(id)
                        &&& behind || !parked
                        &&& final(self)@ == if behind {
                            before.with_rx(
                                id,
                                Rx {
                                    version: before.version as u64,
                                    awaiting: false,
                                    waiter: None,
                                    alive: true,
                                },
                            )
                        } else {
                            before
                        }
                    },
                    ChangePoll::Closed => {
                        &&& before.live(id) ==> !behind && parked && !before.sender_alive
                        &&& final(self)@ == before
                    },
                    ChangePoll::Blocked { waiter: kept } => {
                        &&& before.live(id)
                        &&& !behind
                        &&& parked
                        &&& before.sender_alive
                        &&& kept == waiter
                        &&& final(self)@ == before
                    },
                }
            }),
    {
        let index: usize = match self.rx_index(id) {
            Some(index) => index,
            None => {
                return ChangePoll::Closed;
            },
        };
        let rx = self.receivers[index];
        let current: u64 = self.version;
        if rx.version < current {
            self.set_rx(
                index,
                Rx { version: current, awaiting: false, waiter: None, alive: true },
            );
            return ChangePoll::Immediate;
        }
        let parked = match rx.waiter {
            Some(parked) => rx.awaiting && parked == waiter,
            None => false,
        };
        if !parked {
            ChangePoll::Immediate
        } else if !self.sender_alive {
            ChangePoll::Closed
        } else {
            ChangePoll::Blocked { waiter }
        }
    }

    /// Cancel an outstanding `changed`.
    pub fn cancel_changed(&mut self, id: u64)
        requires
            old(self).wf(),
        ensures
            final(self).wf(),
            final(self)@ == old(self)@.after(WatchOp::CancelChanged(id)),
            final(self)@ == if old(self)@.live(id) {
                old(self)@.with_rx(id, Rx { awaiting: false, waiter: None, ..old(self)@.rx(id) })
            } else {
                old(self)@
            },
    {
        match self.rx_index(id) {
            Some(index) => {
                let version: u64 = self.receivers[index].version;
                self.set_rx(index, Rx { version, awaiting: false, waiter: None, alive: true });
            },
            None => {},
        }
    }

    /// Reset the receiver's change flag: it counts as up to date.
    pub fn mark_unchanged(&mut self, id: u64)
        requires
            old(self).wf(),
        ensures
            final(self).wf(),
            final(self)@ == old(self)@.after(WatchOp::MarkUnchanged(id)),
            final(self)@ == if old(self)@.live(id) {
                old(self)@.with_rx(
                    id,
                    Rx {
                        version: old(self)@.version as u64,
                        awaiting: false,
                        waiter: None,
                        alive: true,
                    },
                )
            } else {
                old(self)@
            },
    {
        match self.rx_index(id) {
            Some(index) => {
                let version: u64 = self.version;
                self.set_rx(index, Rx { version, awaiting: false, waiter: None, alive: true });
            },
            None => {},
        }
    }

    /// Mark the current version as seen.
    pub fn mark_seen(&mut self, id: u64)
        requires
            old(self).wf(),
        ensures
            final(self).wf(),
            final(self)@ == old(self)@.after(WatchOp::MarkSeen(id)),
            final(self)@ == if old(self)@.live(id) {
                old(self)@.with_rx(
                    id,
                    Rx { version: old(self)@.version as u64, ..old(self)@.rx(id) },
                )
            } else {
                old(self)@
            },
    {
        match self.rx_index(id) {
            Some(index) => {
                let rx = self.receivers[index];
                let version: u64 = self.version;
                self.set_rx(
                    index,
                    Rx { version, awaiting: rx.awaiting, waiter: rx.waiter, alive: true },
                );
            },
            None => {},
        }
    }

    /// The first round of a blocking send.
    pub fn send_round(&mut self, value: T) -> (round: Round<Result<(), SendError<T>>>)
        requires
            old(self).wf(),
            old(self)@.issued < u64::MAX,
            old(self)@.version + queued_values(old(self)@.queue).len() < u64::MAX,
        ensures
            final(self).wf(),
            final(self)@ == old(self)@.after(WatchOp::Send(value)),
            match round {
                Round::Done { result: Ok(()), bell } => {
                    &&& bell
                    &&& old(self)@.receiver_count() > 0
                    &&& old(self)@.readers == 0
                    &&& !old(self)@.any_queued()
                    &&& final(self)@ == old(self)@.commit(value)
                },
                Round::Done { result: Err(SendError(back)), bell } => {
                    &&& !bell
                    &&& old(self)@.receiver_count() == 0
                    &&& back == value
                    &&& final(self)@ == old(self)@
                },
                Round::Park { waiter } => {
                    &&& old(self)@.receiver_count() > 0
                    &&& old(self)@.readers > 0 || old(self)@.any_queued()
                    &&& waiter.0 == old(self)@.issued + 1
                    &&& final(self)@ == old(self)@.park(PendingKind::Send, value)
                },
            },
    {
        match self.send(value) {
            SendOffer::Sent => Round::Done { result: Ok(()), bell: true },
            SendOffer::Rejected(value) => Round::Done { result: Err(SendError(value)), bell: false },
            SendOffer::Blocked { waiter } => Round::Park { waiter },
        }
    }

    /// Another round of a blocking send that is parked as `waiter`.
    pub fn resend_round(&mut self, waiter: WaiterId) -> (round: Round<Result<(), SendError<T>>>)
        requires
            old(self).wf(),
            position_of(old(self)@.queue, waiter) < old(self)@.queue.len(),
        ensures
            final(self).wf(),
            final(self)@ == old(self)@.after(WatchOp::PollSend(waiter)),
            ({
                let now = old(self)@.polled(waiter);
                let i = position_of(old(self)@.queue, waiter);
                match round {
                    Round::Done { result: Ok(()), bell } => {
                        &&& bell
                        &&& now.queue[i].state is Committed
                        &&& final(self)@ == now.without(i)
                    },
                    Round::Done { result: Err(SendError(back)), bell } => {
                        &&& !bell
                        &&& now.queue[i].state == PendingState::Failed(back)
                        &&& final(self)@ == now.without(i)
                    },
                    Round::Park { waiter: kept } => {
                        &&& kept == waiter
                        &&& now.queue[i].state is Queued
                        &&& final(self)@ == now
                    },
                }
            }),
    {
        match self.poll_send(waiter) {
            SendPoll::Sent => Round::Done { result: Ok(()), bell: true },
            SendPoll::Failed(value) => Round::Done { result: Err(SendError(value)), bell: false },
            SendPoll::Pending | SendPoll::Cancelled => Round::Park { waiter },
        }
    }

    /// The first round of a blocking replace.
    pub fn replace_round(&mut self, value: T) -> (round: Round<T>)
        requires
            old(self).wf(),
            old(self)@.issued < u64::MAX,
            old(self)@.version + queued_values(old(self)@.queue).len() < u64::MAX,
        ensures
            final(self).wf(),
            final(self)@ == old(self)@.after(WatchOp::SendReplace(value)),
            match round {
                Round::Done { result, bell } => {
                    &&& bell
                    &&& old(self)@.readers == 0
                    &&& !old(self)@.any_queued()
                    &&& result == old(self)@.value
                    &&& final(self)@ == old(self)@.commit(value)
                },
                Round::Park { waiter } => {
                    &&& old(self)@.readers > 0 || old(self)@.any_queued()
                    &&& waiter.0 == old(self)@.issued + 1
                    &&& final(self)@ == old(self)@.park(PendingKind::Replace, value)
                },
            },
    {
        match self.send_replace(value) {
            ReplaceOffer::Replaced(old_value) => Round::Done { result: old_value, bell: true },
            ReplaceOffer::Queued { waiter } => Round::Park { waiter },
        }
    }

    /// Another round of a blocking replace that is parked as `waiter`.
    pub fn rereplace_round(&mut self, waiter: WaiterId) -> (round: Round<T>)
        requires
            old(self).wf(),
            ({
                let i = position_of(old(self)@.queue, waiter);
                &&& i < old(self)@.queue.len()
                &&& !(old(self)@.polled(waiter).queue[i].state is Failed)
            }),
        ensures
            final(self).wf(),
            final(self)@ == old(self)@.after(WatchOp::PollReplace(waiter)),
            ({
                let now = old(self)@.polled(waiter);
                let i = position_of(old(self)@.queue, waiter);
                match round {
                    Round::Done { result, bell } => {
                        &&& bell
                        &&& now.queue[i].state == PendingState::Committed(result)
                        &&& final(self)@ == now.without(i)
                    },
                    Round::Park { waiter: kept } => {
                        &&& kept == waiter
                        &&& now.queue[i].state is Queued
                        &&& final(self)@ == now
                    },
                }
            }),
    {
        match self.poll_replace(waiter) {
            ReplacePoll::Replaced(old_value) => Round::Done { result: old_value, bell: true },
            ReplacePoll::Pending | ReplacePoll::Cancelled => Round::Park { waiter },
        }
    }

    /// One round of a blocking wait for the next change; `waiter` is what it
    /// parked as in the round before, if there was one.
    pub fn changed_round(&mut self, id: u64, waiter: Option<WaiterId>) -> (round: Round<
        Result<(), RecvError>,
    >)
        requires
            old(self).wf(),
            old(self)@.issued < u64::MAX,
        ensures
            final(self).wf(),
            final(self)@ == old(self)@.after(
                match waiter {
                    Some(waiter) => WatchOp::PollChangedWait(id, waiter),
                    None => WatchOp::PollChanged(id),
                },
            ),
            ({
                let before = old(self)@;
                let behind = before.rx(id).version < before.version;
                let parked = before.rx(id).awaiting && waiter is Some && before.rx(id).waiter
                    == waiter;
                match round {
                    Round::Done { result: Ok(()), bell } => {
                        &&& !bell
                        &&& before.live(id)
                        &&& behind || (waiter is Some && !parked)
                        &&& final(self)@ == if behind {
                            before.with_rx(
                                id,
                                Rx {
                                    version: before.version as u64,
                                    awaiting: false,
                                    waiter: None,
                                    alive: true,
                                },
                            )
                        } else {
                            before
                        }
                    },
                    Round::Done { result: Err(_), bell } => {
                        &&& !bell
                        &&& before.live(id) ==> !behind && !before.sender_alive && (waiter is Some
                            ==> parked)
                        &&& final(self)@ == before
                    },
                    Round::Park { waiter: kept } => {
                        &&& before.live(id)
                        &&& !behind
                        &&& before.sender_alive
                        &&& match (waiter, before.rx(id).waiter) {
                            (Some(waiter), _) => parked && kept == waiter && final(self)@ == before,
                            (None, Some(waiting)) => kept == waiting && final(self)@
                                == before.with_rx(id, Rx { awaiting: true, ..before.rx(id) }),
                            (None, None) => kept.0 == before.issued + 1 && final(self)@ == (
                            WatchState {
                                issued: before.issued + 1,
                                ..before.with_rx(
                                    id,
                                    Rx { awaiting: true, waiter: Some(kept), ..before.rx(id) },
                                )
                            }),
                        }
                    },
                }
            }),
    {
        let poll = match waiter {
            Some(waiter) => self.poll_changed_wait(id, waiter),
            None => self.poll_changed(id),
        };
        match poll {
            ChangePoll::Immediate => Round::Done { result: Ok(()), bell: false },
            ChangePoll::Closed => Round::Done { result: Err(RecvError), bell: false },
            ChangePoll::Blocked { waiter } => Round::Park { waiter },
        }
    }

    /// How many waits this channel has ever handed out an id for.
    pub fn issued(&self) -> (issued: u64)
        ensures
            issued == self@.issued,
    {
        self.waiters.next
    }

    /// The current value.
    pub fn value(&self) -> (value: &T)
        ensures
            *value == self@.value,
    {
        &self.value
    }

    /// The current version.
    pub fn version(&self) -> (version: u64)
        ensures
            version == self@.version,
    {
        self.version
    }

    /// Number of borrow guards currently out.
    pub fn readers(&self) -> (readers: usize)
        ensures
            readers == self@.readers,
    {
        self.readers
    }

    /// Whether the sender handle is alive.
    pub fn has_sender(&self) -> (alive: bool)
        ensures
            alive == self@.sender_alive,
    {
        self.sender_alive
    }

    /// Live receiver ids, ascending. Ids are recycled once a receiver is
    /// dropped, so callers holding an id across a drop must re-check it with
    /// [`WatchCore::contains`].
    pub fn receiver_ids(&self) -> (ids: Vec<u64>)
        ensures
            ids@ == live_ids(self@.receivers),
    {
        let mut ids: Vec<u64> = Vec::new();
        let mut index: usize = 0;
        assert(self.receivers@.take(0) =~= Seq::empty());
        while index < self.receivers.len()
            invariant
                index <= self.receivers.len(),
                ids@ == live_ids(self.receivers@.take(index as int)),
            decreases self.receivers.len() - index,
        {
            assert(self.receivers@.take(index + 1).drop_last() =~= self.receivers@.take(
                index as int,
            ));
            if self.receivers[index].alive {
                ids.push(index as u64 + 1);
            }
            index = index + 1;
        }
        assert(self.receivers@.take(index as int) =~= self.receivers@);
        ids
    }

    /// Values that parked sends hold, in queue order.
    pub fn pending_values(&self) -> (values: Vec<&T>)
        ensures
            values@.map_values(|value: &T| *value) == held_values(self@.queue),
    {
        let mut values: Vec<&T> = Vec::new();
        let mut i: usize = 0;
        assert(self.queue@.take(0) =~= Seq::empty());
        assert(values@.map_values(|value: &T| *value) =~= Seq::empty());
        while i < self.queue.len()
            invariant
                i <= self.queue.len(),
                values@.map_values(|value: &T| *value) == held_values(
                    self.queue@.take(i as int),
                ),
            decreases self.queue.len() - i,
        {
            assert(self.queue@.take(i + 1).drop_last() =~= self.queue@.take(i as int));
            let ghost before = values@;
            match &self.queue[i].state {
                PendingState::Queued(value) | PendingState::Failed(value) => {
                    values.push(value);
                    assert(values@.map_values(|value: &T| *value) =~= before.map_values(
                        |value: &T| *value,
                    ).push(*value));
                },
                PendingState::Committed(_) => {},
            }
            i = i + 1;
        }
        assert(self.queue@.take(i as int) =~= self.queue@);
        values
    }

    /// Parked sends in queue order, which is the FIFO commit order.
    pub fn pending_waiters(&self) -> (waiters: Vec<WaiterId>)
        ensures
            waiters@ == self@.queue.map_values(|pending: Pending<T>| pending.waiter),
    {
        let mut waiters: Vec<WaiterId> = Vec::new();
        let mut i: usize = 0;
        while i < self.queue.len()
            invariant
                i <= self.queue.len(),
                waiters@ == self.queue@.take(i as int).map_values(
                    |pending: Pending<T>| pending.waiter,
                ),
            decreases self.queue.len() - i,
        {
            waiters.push(self.queue[i].waiter);
            i = i + 1;
            assert(waiters@ =~= self.queue@.take(i as int).map_values(
                |pending: Pending<T>| pending.waiter,
            ));
        }
        assert(self.queue@.take(i as int) =~= self.queue@);
        waiters
    }

    /// Whether the value changed since the receiver last saw it.
    pub fn has_changed(&self, id: u64) -> (changed: bool)
        ensures
            changed == (self@.live(id) && self@.rx(id).version < self@.version),
    {
        match self.rx_index(id) {
            Some(index) => self.receivers[index].version < self.version,
            None => false,
        }
    }

    /// Whether the receiver is parked in `changed`.
    pub fn is_awaiting(&self, id: u64) -> (awaiting: bool)
        ensures
            awaiting == (self@.live(id) && self@.rx(id).awaiting),
    {
        match self.rx_index(id) {
            Some(index) => self.receivers[index].awaiting,
            None => false,
        }
    }

    /// The receiver's seen-version, if it is alive.
    pub fn receiver_version(&self, id: u64) -> (version: Option<u64>)
        ensures
            version == if self@.live(id) {
                Some(self@.rx(id).version)
            } else {
                None
            },
    {
        match self.rx_index(id) {
            Some(index) => Some(self.receivers[index].version),
            None => None,
        }
    }

    /// Number of live receiver handles.
    pub fn receiver_count(&self) -> (count: usize)
        requires
            self.wf(),
        ensures
            count == self@.receiver_count(),
    {
        self.live_receivers
    }

    /// True if the receiver slot is live.
    pub fn contains(&self, id: u64) -> (contains: bool)
        ensures
            contains == self@.live(id),
    {
        match self.rx_index(id) {
            Some(_) => true,
            None => false,
        }
    }
}

/// Run `f` on `place`.
fn run<T, F: FnOnce(&mut T) -> bool>(f: F, place: &mut T) -> (changed: bool)
    requires
        forall|p: &mut T| *p == *old(place) ==> call_requires(f, (p,)),
    ensures
        exists|p: &mut T|
            *p == *old(place) && *final(p) == *final(place) && #[trigger] call_ensures(
                f,
                (p,),
                changed,
            ),
{
    f(place)
}

/// Replacing a slot moves the count by its receiver.
pub proof fn lemma_count_update(receivers: Seq<Rx>, i: int, rx: Rx)
    requires
        0 <= i < receivers.len(),
    ensures
        live_count(receivers.update(i, rx)) + (if receivers[i].alive {
            1nat
        } else {
            0
        }) == live_count(receivers) + (if rx.alive {
            1nat
        } else {
            0
        }),
    decreases receivers.len(),
{
    let front = receivers.drop_last();
    if i < receivers.len() - 1 {
        lemma_count_update(front, i, rx);
        assert(receivers.update(i, rx).drop_last() =~= front.update(i, rx));
    } else {
        assert(receivers.update(i, rx).drop_last() =~= front);
    }
}

proof fn lemma_count_bound(receivers: Seq<Rx>)
    ensures
        live_count(receivers) <= receivers.len(),
    decreases receivers.len(),
{
    if receivers.len() > 0 {
        lemma_count_bound(receivers.drop_last());
    }
}

/// Without a free slot, everyone is alive.
proof fn lemma_all_alive(receivers: Seq<Rx>)
    requires
        free_slot(receivers) == receivers.len(),
    ensures
        live_count(receivers) == receivers.len(),
    decreases receivers.len(),
{
    if receivers.len() > 0 {
        lemma_free_prefix(receivers, receivers.len() - 1);
        assert(receivers.take(receivers.len() - 1) =~= receivers.drop_last());
        lemma_all_alive(receivers.drop_last());
    }
}

/// The count depends on who is alive alone.
pub proof fn lemma_same_alive_same_count(a: Seq<Rx>, b: Seq<Rx>)
    requires
        a.len() == b.len(),
        forall|i: int| 0 <= i < a.len() ==> (#[trigger] a[i]).alive == b[i].alive,
    ensures
        live_count(a) == live_count(b),
    decreases a.len(),
{
    if a.len() > 0 {
        assert(a.last().alive == b.last().alive);
        assert forall|i: int| 0 <= i < a.drop_last().len() implies (
        #[trigger] a.drop_last()[i]).alive == b.drop_last()[i].alive by {
            assert(a[i].alive == b[i].alive);
        }
        lemma_same_alive_same_count(a.drop_last(), b.drop_last());
    }
}

proof fn lemma_free_prefix(receivers: Seq<Rx>, n: int)
    requires
        0 <= n <= receivers.len(),
    ensures
        0 <= free_slot(receivers.take(n)) <= n,
        free_slot(receivers.take(n)) < n ==> free_slot(receivers) == free_slot(receivers.take(n)),
    decreases receivers.len(),
{
    if n < receivers.len() {
        lemma_free_prefix(receivers.drop_last(), n);
        assert(receivers.drop_last().take(n) =~= receivers.take(n));
    } else {
        assert(receivers.take(n) =~= receivers);
        if n > 0 {
            lemma_free_prefix(receivers.drop_last(), n - 1);
            assert(receivers.drop_last().take(n - 1) =~= receivers.drop_last());
        }
    }
}

/// A new receiver takes a slot that nobody uses, and counts.
pub proof fn lemma_with_receiver<T>(state: WatchState<T>, version: u64)
    ensures
        0 <= free_slot(state.receivers) <= state.receivers.len(),
        free_slot(state.receivers) < state.receivers.len() ==> !state.receivers[free_slot(
            state.receivers,
        )].alive,
        state.with_receiver(version).receiver_count() == state.receiver_count() + 1,
{
    let receivers = state.receivers;
    let free = free_slot(receivers);
    let rx = Rx { version, awaiting: false, waiter: None, alive: true };
    lemma_free_prefix(receivers, receivers.len() as int);
    assert(receivers.take(receivers.len() as int) =~= receivers);
    if free < receivers.len() {
        lemma_free_is_dead(receivers);
        lemma_count_update(receivers, free, rx);
    } else {
        assert(receivers.push(rx).drop_last() =~= receivers);
    }
}

proof fn lemma_free_is_dead(receivers: Seq<Rx>)
    requires
        free_slot(receivers) < receivers.len(),
    ensures
        0 <= free_slot(receivers),
        !receivers[free_slot(receivers)].alive,
    decreases receivers.len(),
{
    if receivers.len() > 0 {
        let front = receivers.drop_last();
        lemma_free_prefix(receivers, receivers.len() - 1);
        assert(receivers.take(receivers.len() - 1) =~= front);
        if free_slot(front) < front.len() {
            lemma_free_is_dead(front);
        }
    }
}

pub(crate) proof fn lemma_position_prefix<T>(queue: Seq<Pending<T>>, waiter: WaiterId, n: int)
    requires
        0 <= n <= queue.len(),
    ensures
        0 <= position_of(queue.take(n), waiter) <= n,
        position_of(queue.take(n), waiter) < n ==> position_of(queue, waiter) == position_of(
            queue.take(n),
            waiter,
        ),
    decreases queue.len(),
{
    if n < queue.len() {
        lemma_position_prefix(queue.drop_last(), waiter, n);
        assert(queue.drop_last().take(n) =~= queue.take(n));
    } else {
        assert(queue.take(n) =~= queue);
        if n > 0 {
            lemma_position_prefix(queue.drop_last(), waiter, n - 1);
            assert(queue.drop_last().take(n - 1) =~= queue.drop_last());
        }
    }
}

/// Removing an operation that does not wait leaves those that wait alone.
proof fn lemma_remove_keeps_queued<T>(queue: Seq<Pending<T>>, i: int)
    requires
        0 <= i < queue.len(),
        !(queue[i].state is Queued),
    ensures
        queued_values(queue.remove(i)) == queued_values(queue),
    decreases queue.len(),
{
    let front = queue.drop_last();
    if i < queue.len() - 1 {
        lemma_remove_keeps_queued(front, i);
        assert(queue.remove(i).drop_last() =~= front.remove(i));
    } else {
        assert(queue.remove(i) =~= front);
    }
}

/// Removing an operation takes at most its own value off those that wait.
pub(crate) proof fn lemma_remove_queued_len<T>(queue: Seq<Pending<T>>, i: int)
    requires
        0 <= i < queue.len(),
    ensures
        queued_values(queue.remove(i)).len() + (if queue[i].state is Queued {
            1nat
        } else {
            0
        }) == queued_values(queue).len(),
    decreases queue.len(),
{
    let front = queue.drop_last();
    if i < queue.len() - 1 {
        lemma_remove_queued_len(front, i);
        assert(queue.remove(i).drop_last() =~= front.remove(i));
    } else {
        assert(queue.remove(i) =~= front);
    }
}

/// Settling an operation takes its value off those that wait.
pub(crate) proof fn lemma_update_keeps_queued<T>(queue: Seq<Pending<T>>, i: int, settled: Pending<T>)
    requires
        0 <= i < queue.len(),
        !(settled.state is Queued),
    ensures
        queued_values(queue.update(i, settled)) == queued_values(queue.remove(i)),
    decreases queue.len(),
{
    let front = queue.drop_last();
    if i < queue.len() - 1 {
        lemma_update_keeps_queued(front, i, settled);
        assert(queue.update(i, settled).drop_last() =~= front.update(i, settled));
        assert(queue.remove(i).drop_last() =~= front.remove(i));
    } else {
        assert(queue.update(i, settled).drop_last() =~= front);
        assert(queue.remove(i) =~= front);
    }
}

pub(crate) proof fn lemma_queued_bound<T>(queue: Seq<Pending<T>>, i: int)
    requires
        0 <= i < queue.len(),
        queue[i].state is Queued,
    ensures
        queued_values(queue).len() >= 1,
    decreases queue.len(),
{
    if i < queue.len() - 1 {
        assert(queue.drop_last()[i] == queue[i]);
        lemma_queued_bound(queue.drop_last(), i);
    }
}

/// Where nothing waits, there is nothing to settle.
proof fn lemma_settle_nothing<T>(state: WatchState<T>, n: nat)
    requires
        !state.any_queued(),
        n <= state.queue.len(),
    ensures
        state.settle_first(n) == state,
    decreases n,
{
    if n > 0 {
        lemma_settle_nothing(state, (n - 1) as nat);
        assert(!(state.queue[n - 1].state is Queued));
    }
}

/// What settling the first `n` operations makes of the one at `i`.
proof fn lemma_settled<T>(state: WatchState<T>, n: nat, i: int)
    requires
        n <= state.queue.len(),
        0 <= i < state.queue.len(),
    ensures
        ({
            let after = state.settle_first(n);
            &&& after.queue.len() == state.queue.len()
            &&& after.receiver_count() == state.receiver_count()
            &&& after.queue[i].kind == state.queue[i].kind
            &&& n <= i || !(state.queue[i].state is Queued) ==> after.queue[i] == state.queue[i]
            &&& i < n && state.queue[i].state is Queued ==> (after.queue[i].state is Failed <==> (
            state.queue[i].kind is Send && state.receiver_count() == 0))
            &&& i < n ==> !(after.queue[i].state is Queued)
        }),
    decreases n,
{
    if n > 0 {
        let m = (n - 1) as nat;
        lemma_settled(state, m, i);
        lemma_settled(state, m, m as int);
        let mid = state.settle_first(m);
        lemma_same_alive_same_count(mid.receivers, mid.settle(m as int).receivers);
    }
}

/// Settling the first `n` operations while somebody listens commits exactly
/// the values that waited among them, in order.
proof fn lemma_settle_first<T>(state: WatchState<T>, n: nat)
    requires
        state.receiver_count() > 0,
        n <= state.queue.len(),
    ensures
        ({
            let after = state.settle_first(n);
            let values = queued_values(state.queue.take(n as int));
            &&& after.receiver_count() == state.receiver_count()
            &&& after.queue.len() == state.queue.len()
            &&& forall|k: int| n <= k < state.queue.len() ==> #[trigger] after.queue[k]
                == state.queue[k]
            &&& forall|k: int| 0 <= k < n ==> !((#[trigger] after.queue[k]).state is Queued)
            &&& forall|k: int| 0 <= k < n ==> (#[trigger] after.queue[k]).waiter
                == state.queue[k].waiter
            &&& after.version == state.version + values.len()
            &&& after.value == if values.len() > 0 {
                values.last()
            } else {
                state.value
            }
            &&& after.readers == state.readers
        }),
    decreases n,
{
    if n > 0 {
        let m = (n - 1) as nat;
        lemma_settle_first(state, m);
        let mid = state.settle_first(m);
        let after = mid.settle(m as int);
        assert(state.queue.take(n as int).drop_last() =~= state.queue.take(m as int));
        assert(mid.queue[m as int] == state.queue[m as int]);
        match state.queue[m as int].state {
            PendingState::Queued(value) => {
                lemma_same_alive_same_count(mid.receivers, after.receivers);
            },
            _ => {},
        }
    } else {
        assert(state.queue.take(0) =~= Seq::empty());
    }
}

/// Parked sends commit in queue order as the last guard goes away: while
/// somebody listens, none is left waiting, each counted one version, and the
/// value that stays is the one sent last.
pub proof fn law_parked_sends_commit_in_order<T>(state: WatchState<T>)
    requires
        state.wf(),
        state.readers == 0,
        state.receiver_count() > 0,
    ensures
        ({
            let after = state.drained();
            let values = queued_values(state.queue);
            &&& forall|k: int| 0 <= k < after.queue.len() ==> !((
            #[trigger] after.queue[k]).state is Queued)
            &&& after.version == state.version + values.len()
            &&& after.value == if values.len() > 0 {
                values.last()
            } else {
                state.value
            }
            &&& after.queue.map_values(|pending: Pending<T>| pending.waiter)
                == state.queue.map_values(|pending: Pending<T>| pending.waiter)
        }),
{
    lemma_settle_first(state, state.queue.len());
    assert(state.queue.take(state.queue.len() as int) =~= state.queue);
    assert(state.drained().queue.map_values(|pending: Pending<T>| pending.waiter)
        =~= state.queue.map_values(|pending: Pending<T>| pending.waiter));
}

/// A borrow guard protects what it reads: while one is out, neither a send nor
/// a poll of a parked one changes the value or its version.
pub proof fn law_guards_protect_the_value<T>(
    state: WatchState<T>,
    kind: PendingKind,
    value: T,
    waiter: WaiterId,
)
    requires
        state.wf(),
        state.readers > 0,
    ensures
        state.park(kind, value).value == state.value,
        state.park(kind, value).version == state.version,
        state.polled(waiter) == state,
        state.drained() == state,
{
}

/// A commit reaches every receiver: one that was parked in `changed` wakes and
/// has seen the new version, every other one can tell that it has not.
pub proof fn law_commit_reaches_every_receiver<T>(state: WatchState<T>, value: T, id: u64)
    requires
        state.wf(),
        state.live(id),
    ensures
        ({
            let after = state.commit(value);
            &&& after.value == value
            &&& after.live(id)
            &&& !after.rx(id).awaiting
            &&& state.rx(id).awaiting ==> after.rx(id).version == after.version as u64
            &&& !state.rx(id).awaiting ==> after.rx(id).version < after.version
        }),
{
}

/// A send that nobody would see fails with its value back, and changes
/// nothing that a receiver could see.
pub proof fn law_unseen_send_fails<T>(state: WatchState<T>, i: int, value: T)
    requires
        state.wf(),
        state.receiver_count() == 0,
        0 <= i < state.queue.len(),
        state.queue[i].kind is Send,
        state.queue[i].state == PendingState::Queued(value),
    ensures
        state.settle(i).queue[i].state == PendingState::Failed(value),
        state.settle(i).value == state.value,
        state.settle(i).version == state.version,
{
}

/// A send waits for nothing but guards: with none out, no operation waits.
pub proof fn law_sends_wait_only_for_guards<T>(core: &WatchCore<T>)
    requires
        core.wf(),
        core@.readers == 0,
    ensures
        !core@.any_queued(),
        queued_values(core@.queue).len() == 0,
{
    lemma_nothing_queued(core@.queue);
}

proof fn lemma_nothing_queued<T>(queue: Seq<Pending<T>>)
    requires
        forall|i: int| 0 <= i < queue.len() ==> !((#[trigger] queue[i]).state is Queued),
    ensures
        queued_values(queue).len() == 0,
    decreases queue.len(),
{
    if queue.len() > 0 {
        assert(!(queue[queue.len() - 1].state is Queued));
        assert forall|i: int| 0 <= i < queue.drop_last().len() implies !((
        #[trigger] queue.drop_last()[i]).state is Queued) by {
            assert(queue.drop_last()[i] == queue[i]);
        }
        lemma_nothing_queued(queue.drop_last());
    }
}

proof fn lemma_live_ids(receivers: Seq<Rx>)
    requires
        receivers.len() <= u64::MAX,
    ensures
        live_ids(receivers).len() == live_count(receivers),
        forall|i: int|
            0 <= i < live_ids(receivers).len() ==> 1 <= #[trigger] live_ids(receivers)[i]
                <= receivers.len() && receivers[live_ids(receivers)[i] - 1].alive,
        forall|i: int, j: int|
            #![trigger live_ids(receivers)[i], live_ids(receivers)[j]]
            0 <= i < j < live_ids(receivers).len() ==> live_ids(receivers)[i] < live_ids(
                receivers,
            )[j],
        forall|k: int|
            0 <= k < receivers.len() && (#[trigger] receivers[k]).alive ==> live_ids(
                receivers,
            ).contains((k + 1) as u64),
    decreases receivers.len(),
{
    if receivers.len() > 0 {
        let front = receivers.drop_last();
        let before = live_ids(front);
        let ids = live_ids(receivers);
        lemma_live_ids(front);
        assert forall|k: int| 0 <= k < receivers.len() && (
        #[trigger] receivers[k]).alive implies ids.contains((k + 1) as u64) by {
            if k < front.len() {
                assert(front[k].alive);
                let i = choose|i: int| 0 <= i < before.len() && before[i] == (k + 1) as u64;
                assert(ids[i] == (k + 1) as u64);
            } else {
                assert(ids[ids.len() - 1] == (k + 1) as u64);
            }
        }
        assert forall|i: int| 0 <= i < ids.len() implies 1 <= #[trigger] ids[i]
            <= receivers.len() && receivers[ids[i] - 1].alive by {
            if i < before.len() {
                assert(ids[i] == before[i]);
                assert(front[before[i] - 1].alive);
            }
        }
        assert forall|i: int, j: int|
            #![trigger ids[i], ids[j]]
            0 <= i < j < ids.len() implies ids[i] < ids[j] by {
            assert(ids[i] == before[i]);
            if j < before.len() {
                assert(ids[j] == before[j]);
            }
        }
    }
}

proof fn lemma_before_free(receivers: Seq<Rx>, k: int)
    requires
        0 <= k < free_slot(receivers),
    ensures
        k < receivers.len(),
        receivers[k].alive,
    decreases receivers.len(),
{
    if receivers.len() > 0 {
        let front = receivers.drop_last();
        lemma_free_prefix(receivers, receivers.len() - 1);
        assert(receivers.take(receivers.len() - 1) =~= front);
        if k < free_slot(front) {
            lemma_before_free(front, k);
        }
    }
}

/// The ids that a channel lists ascend, are those of its receivers and no
/// others, and are as many as it counts.
pub proof fn law_ids_are_those_of_the_receivers<T>(state: WatchState<T>)
    requires
        state.wf(),
    ensures
        live_ids(state.receivers).len() == state.receiver_count(),
        forall|id: u64| #[trigger] live_ids(state.receivers).contains(id) <==> state.live(id),
        forall|i: int, j: int|
            #![trigger live_ids(state.receivers)[i], live_ids(state.receivers)[j]]
            0 <= i < j < live_ids(state.receivers).len() ==> live_ids(state.receivers)[i]
                < live_ids(state.receivers)[j],
{
    lemma_live_ids(state.receivers);
    assert forall|id: u64| #[trigger]
        live_ids(state.receivers).contains(id) <==> state.live(id) by {
        if state.live(id) {
            assert(state.receivers[id - 1].alive);
            assert((id - 1 + 1) as u64 == id);
        }
    }
}

/// A new receiver gets the least id that is free: dropped ids are recycled.
pub proof fn law_least_free_id_comes_next<T>(state: WatchState<T>)
    requires
        state.wf(),
        state.receivers.len() < u64::MAX,
    ensures
        !state.live((free_slot(state.receivers) + 1) as u64),
        forall|id: u64|
            1 <= id < free_slot(state.receivers) + 1 ==> #[trigger] state.live(id),
{
    lemma_with_receiver(state, 0);
    assert forall|id: u64| 1 <= id < free_slot(state.receivers) + 1 implies #[trigger] state.live(
        id,
    ) by {
        lemma_before_free(state.receivers, id - 1);
    }
}

} // verus!

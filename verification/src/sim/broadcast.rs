//! The broadcast game: one ring buffer, many sender handles (the host seeds
//! one; anyone may clone any of them), one receiver per subscribing
//! connection.
//!
//! * A send never blocks: when the buffer is full the oldest value is evicted
//!   to make room.
//! * A new receiver starts at the tail: it sees only values sent after it
//!   subscribed, never buffered history.
//! * A receiver that falls behind the ring is told once how many evicted
//!   values it missed, and resumes at the oldest retained value.
//! * A receive with nothing new arms the receiver; it completes on the next
//!   send.
//! * Once every sender is gone the channel is closed, but values still
//!   retained stay receivable: closure is only reported after they drain.
//! * The host seed sender is presenter-owned once a presenter claims the slot.
//!
//! The model of the channel is its history, [`BroadcastGame::sent`].

use vstd::prelude::*;

use crate::channels::broadcast::{BroadcastCore, BroadcastPoll, BroadcastState, lemma_free_slot};
use crate::protocol::{
    BroadcastError, BroadcastEvent, BroadcastSnapshot, BroadcastWire, BufferChar, RxState,
    SenderInfo, BROADCAST_CAPACITY,
};

verus! {

/// The seed sender's reserved handle id; its owner transfers to whoever claims
/// the presenter slot.
pub const BROADCAST_HOST_CONN: u64 = 0;

/// The game as a mathematical value.
#[verifier::ext_equal]
pub struct BroadcastGame {
    /// Every value ever sent, oldest first; values are numbered from 1.
    pub sent: Seq<BufferChar>,
    pub senders: Seq<SenderInfo>,
    pub receivers: Seq<RxState>,
    pub next_receiver: u64,
    pub next_sender: u64,
    pub presenter: Option<u64>,
    /// How many receives ever had to wait.
    pub ever_armed: nat,
}

/// Position of the sender `conn`; the number of senders if there is none.
pub open spec fn sender_index(senders: Seq<SenderInfo>, conn: u64) -> int
    decreases senders.len(),
{
    if senders.len() == 0 {
        0
    } else {
        let before = sender_index(senders.drop_last(), conn);
        if before < senders.len() - 1 || senders.last().conn == conn {
            before
        } else {
            senders.len() as int
        }
    }
}

/// Position of the receiver `id`; the number of receivers if there is none.
pub open spec fn receiver_index(receivers: Seq<RxState>, id: u64) -> int
    decreases receivers.len(),
{
    if receivers.len() == 0 {
        0
    } else {
        let before = receiver_index(receivers.drop_last(), id);
        if before < receivers.len() - 1 || receivers.last().receiver == id {
            before
        } else {
            receivers.len() as int
        }
    }
}

/// Whether `conn`'s departure takes this handle with it: it does if `conn` owns
/// it. Handles and connections are numbered apart, so a handle that happens to
/// bear the number stays.
pub open spec fn departs(sender: SenderInfo, conn: u64) -> bool {
    sender.owner == conn
}

/// The handles that `conn` names or owns.
pub open spec fn senders_of(senders: Seq<SenderInfo>, conn: u64) -> Seq<u64>
    decreases senders.len(),
{
    if senders.len() == 0 {
        Seq::empty()
    } else if senders.last().owner == conn || senders.last().conn == conn {
        senders_of(senders.drop_last(), conn).push(senders.last().conn)
    } else {
        senders_of(senders.drop_last(), conn)
    }
}

/// The handles that stay when `conn` leaves.
pub open spec fn staying_senders(senders: Seq<SenderInfo>, conn: u64) -> Seq<SenderInfo>
    decreases senders.len(),
{
    if senders.len() == 0 {
        Seq::empty()
    } else if departs(senders.last(), conn) {
        staying_senders(senders.drop_last(), conn)
    } else {
        staying_senders(senders.drop_last(), conn).push(senders.last())
    }
}

/// The ids of the handles that go when `conn` leaves.
pub open spec fn departing_senders(senders: Seq<SenderInfo>, conn: u64) -> Seq<u64>
    decreases senders.len(),
{
    if senders.len() == 0 {
        Seq::empty()
    } else if departs(senders.last(), conn) {
        departing_senders(senders.drop_last(), conn).push(senders.last().conn)
    } else {
        departing_senders(senders.drop_last(), conn)
    }
}

/// The receivers that `conn` does not own.
pub open spec fn staying_receivers(receivers: Seq<RxState>, conn: u64) -> Seq<RxState>
    decreases receivers.len(),
{
    if receivers.len() == 0 {
        Seq::empty()
    } else if receivers.last().owner == conn {
        staying_receivers(receivers.drop_last(), conn)
    } else {
        staying_receivers(receivers.drop_last(), conn).push(receivers.last())
    }
}

/// The ids of the receivers that `conn` owns.
pub open spec fn receivers_of(receivers: Seq<RxState>, conn: u64) -> Seq<u64>
    decreases receivers.len(),
{
    if receivers.len() == 0 {
        Seq::empty()
    } else if receivers.last().owner == conn {
        receivers_of(receivers.drop_last(), conn).push(receivers.last().receiver)
    } else {
        receivers_of(receivers.drop_last(), conn)
    }
}

/// A receiver after a value was sent: one that waited has received it.
pub open spec fn served(rx: RxState, value: BufferChar) -> RxState {
    if rx.waiting {
        RxState {
            next: (rx.next + 1) as u64,
            last: Some(value),
            error: None,
            waiting: false,
            ..rx
        }
    } else {
        rx
    }
}

/// The announcements of the receives that a send of `ch` completes.
pub open spec fn served_events(receivers: Seq<RxState>, ch: char) -> Seq<BroadcastEvent>
    decreases receivers.len(),
{
    if receivers.len() == 0 {
        Seq::empty()
    } else if receivers.last().waiting {
        served_events(receivers.drop_last(), ch).push(
            BroadcastEvent::Received { receiver: receivers.last().receiver, ch },
        )
    } else {
        served_events(receivers.drop_last(), ch)
    }
}

/// A handle after the presenter slot was claimed by `conn`.
pub open spec fn claimed(sender: SenderInfo, conn: u64) -> SenderInfo {
    if sender.owner == BROADCAST_HOST_CONN {
        SenderInfo { owner: conn, ..sender }
    } else {
        sender
    }
}

impl BroadcastGame {
    /// A game with the host's seed sender and nothing else.
    pub open spec fn fresh() -> Self {
        BroadcastGame {
            sent: Seq::empty(),
            senders: seq![
                SenderInfo {
                    conn: BROADCAST_HOST_CONN,
                    owner: BROADCAST_HOST_CONN,
                    blocked: false,
                },
            ],
            receivers: Seq::empty(),
            next_receiver: 1,
            next_sender: 1,
            presenter: None,
            ever_armed: 0,
        }
    }

    /// Position in the history of the oldest retained value.
    pub open spec fn oldest(self) -> nat {
        if self.sent.len() > BROADCAST_CAPACITY {
            (self.sent.len() - BROADCAST_CAPACITY) as nat
        } else {
            0
        }
    }

    /// The retained values, oldest first.
    pub open spec fn ring(self) -> Seq<BufferChar> {
        self.sent.skip(self.oldest() as int)
    }

    /// Whether `conn` is a live handle.
    pub open spec fn has_sender(self, conn: u64) -> bool {
        sender_index(self.senders, conn) < self.senders.len()
    }

    /// Who owns the handle `conn`.
    pub open spec fn owner_of(self, conn: u64) -> Option<u64> {
        if self.has_sender(conn) {
            Some(self.senders[sender_index(self.senders, conn)].owner)
        } else {
            None
        }
    }

    /// Whether `receiver` is a receiver that `conn` may operate.
    pub open spec fn operable(self, receiver: u64, conn: u64) -> bool {
        let i = receiver_index(self.receivers, receiver);
        i < self.receivers.len() && self.receivers[i].owner == conn
    }

    /// Whether `conn` has subscribed.
    pub open spec fn subscribed(self, conn: u64) -> bool {
        exists|i: int|
            0 <= i < self.receivers.len() && ((#[trigger] self.receivers[i]).owner == conn
                || self.receivers[i].conn == conn)
    }

    /// What every command keeps: handles and receivers are listed once each,
    /// their ids are never reused, a receiver belongs to the connection that
    /// subscribed it, which has no other, no receiver is ahead of the tail, one
    /// that waits is caught up, and none missed more values than it passed.
    pub open spec fn wf(self) -> bool {
        &&& self.sent.len() < u64::MAX
        &&& 1 <= self.next_sender
        &&& forall|i: int| 0 <= i < self.senders.len()
            ==> (#[trigger] self.senders[i]).conn < self.next_sender
        &&& forall|i: int, j: int|
            #![trigger self.senders[i], self.senders[j]]
            0 <= i < j < self.senders.len() ==> self.senders[i].conn != self.senders[j].conn
        &&& forall|i: int| 0 <= i < self.receivers.len()
            ==> (#[trigger] self.receivers[i]).receiver < self.next_receiver
        &&& forall|i: int, j: int|
            #![trigger self.receivers[i], self.receivers[j]]
            0 <= i < j < self.receivers.len() ==> self.receivers[i].receiver
                < self.receivers[j].receiver
        &&& forall|i: int| 0 <= i < self.receivers.len()
            ==> (#[trigger] self.receivers[i]).conn == self.receivers[i].owner
        &&& forall|i: int, j: int|
            #![trigger self.receivers[i], self.receivers[j]]
            0 <= i < j < self.receivers.len() ==> self.receivers[i].owner
                != self.receivers[j].owner
        &&& forall|i: int| 0 <= i < self.receivers.len()
            ==> 1 <= (#[trigger] self.receivers[i]).next <= self.sent.len() + 1
        &&& forall|i: int| 0 <= i < self.receivers.len()
            ==> (#[trigger] self.receivers[i]).waiting ==> self.receivers[i].next
            == self.sent.len() + 1
        &&& forall|i: int| 0 <= i < self.receivers.len()
            ==> (#[trigger] self.receivers[i]).lagged_total < self.receivers[i].next
    }

    /// Whether another command fits into the counters.
    pub open spec fn has_room(self) -> bool {
        &&& self.sent.len() + 1 < u64::MAX
        &&& self.ever_armed < u64::MAX
        &&& self.next_sender < u64::MAX
        &&& self.next_receiver < u64::MAX
        &&& self.senders.len() < usize::MAX
        &&& self.receivers.len() < usize::MAX
    }

    /// Whether `snapshot` shows this state, field by field.
    pub open spec fn shown_by(self, snapshot: BroadcastSnapshot) -> bool {
        &&& snapshot.senders@ == self.senders
        &&& snapshot.buffer@ == self.ring()
        &&& snapshot.tail == self.sent.len()
        &&& snapshot.receivers@ == self.receivers
        &&& snapshot.presenter == self.presenter
    }

    /// The state with another receiver at position `i`.
    pub open spec fn with_rx(self, i: int, rx: RxState) -> Self {
        BroadcastGame { receivers: self.receivers.update(i, rx), ..self }
    }

    /// One receive at the receiver at position `i`: a lag report, a value,
    /// closure once everything is drained, or arming it for the next send.
    pub open spec fn receive_at(self, i: int) -> (Self, Seq<BroadcastEvent>) {
        let rx = self.receivers[i];
        let cursor = rx.next - 1;
        if cursor < self.oldest() {
            let n = (self.oldest() - cursor) as u64;
            (
                self.with_rx(
                    i,
                    RxState {
                        next: (self.oldest() + 1) as u64,
                        lagged_total: (rx.lagged_total + n) as u64,
                        error: Some(BroadcastError::Lagged(n)),
                        waiting: false,
                        ..rx
                    },
                ),
                seq![BroadcastEvent::Lagged { receiver: rx.receiver, n }],
            )
        } else if cursor < self.sent.len() {
            let value = self.sent[cursor];
            (
                self.with_rx(
                    i,
                    RxState {
                        next: (rx.next + 1) as u64,
                        last: Some(value),
                        error: None,
                        waiting: false,
                        ..rx
                    },
                ),
                seq![BroadcastEvent::Received { receiver: rx.receiver, ch: value.ch }],
            )
        } else if self.senders.len() == 0 {
            (
                self.with_rx(
                    i,
                    RxState { error: Some(BroadcastError::Closed), waiting: false, ..rx },
                ),
                seq![],
            )
        } else {
            (
                BroadcastGame {
                    ever_armed: if rx.waiting {
                        self.ever_armed
                    } else {
                        self.ever_armed + 1
                    },
                    ..self.with_rx(i, RxState { waiting: true, ..rx })
                },
                seq![],
            )
        }
    }

    /// A value is appended at the tail and completes every armed receive; a
    /// full buffer evicts its oldest value. Without receivers the send is
    /// refused.
    pub open spec fn send(self, conn: u64, ch: char) -> (Self, Seq<BroadcastEvent>) {
        if self.receivers.len() == 0 {
            (self, seq![BroadcastEvent::SendRefused])
        } else {
            let value = BufferChar { ch, conn };
            let evicted = if self.sent.len() >= BROADCAST_CAPACITY {
                seq![BroadcastEvent::Evicted { ch: self.sent[self.oldest() as int].ch }]
            } else {
                seq![]
            };
            (
                BroadcastGame {
                    sent: self.sent.push(value),
                    receivers: self.receivers.map_values(|rx: RxState| served(rx, value)),
                    ..self
                },
                seq![BroadcastEvent::InFlight { conn, ch }] + evicted + served_events(
                    self.receivers,
                    ch,
                ),
            )
        }
    }

    /// A fresh handle cloned from `source`, owned by `owner`.
    pub open spec fn clone_sender(self, source: u64, owner: u64) -> (Self, Seq<BroadcastEvent>) {
        if self.has_sender(source) {
            (
                BroadcastGame {
                    senders: self.senders.push(
                        SenderInfo { conn: self.next_sender, owner, blocked: false },
                    ),
                    next_sender: (self.next_sender + 1) as u64,
                    ..self
                },
                seq![BroadcastEvent::SenderJoined { conn: self.next_sender, owner }],
            )
        } else {
            (self, seq![])
        }
    }

    /// A new receiver starts at the tail. One receiver per connection.
    pub open spec fn subscribe(self, conn: u64) -> (Self, Seq<BroadcastEvent>) {
        if self.subscribed(conn) {
            (self, seq![])
        } else {
            (
                BroadcastGame {
                    receivers: self.receivers.push(
                        RxState {
                            receiver: self.next_receiver,
                            conn,
                            owner: conn,
                            next: (self.sent.len() + 1) as u64,
                            lagged_total: 0,
                            last: None,
                            error: None,
                            waiting: false,
                        },
                    ),
                    next_receiver: (self.next_receiver + 1) as u64,
                    ..self
                },
                seq![BroadcastEvent::ReceiverAdded { receiver: self.next_receiver, owner: conn }],
            )
        }
    }

    /// Claiming the presenter slot transfers ownership of host-owned senders,
    /// and re-seeds the host sender when it is gone.
    pub open spec fn claim(self, conn: u64) -> (Self, Seq<BroadcastEvent>) {
        let seed = SenderInfo { conn: BROADCAST_HOST_CONN, owner: conn, blocked: false };
        let (senders, events) = if self.has_sender(BROADCAST_HOST_CONN) {
            (self.senders, seq![])
        } else {
            (
                self.senders.push(seed),
                seq![BroadcastEvent::SenderJoined { conn: BROADCAST_HOST_CONN, owner: conn }],
            )
        };
        (
            BroadcastGame {
                senders: senders.map_values(|sender: SenderInfo| claimed(sender, conn)),
                presenter: Some(conn),
                ..self
            },
            events,
        )
    }

    /// A connection left: the handles it owns drop, its receiver is removed,
    /// and clones that others own survive. Emptying the senders closes the
    /// channel.
    pub open spec fn leave(self, conn: u64) -> (Self, Seq<BroadcastEvent>) {
        (
            BroadcastGame {
                senders: staying_senders(self.senders, conn),
                receivers: staying_receivers(self.receivers, conn),
                presenter: if self.presenter == Some(conn) {
                    None
                } else {
                    self.presenter
                },
                ..self
            },
            departing_senders(self.senders, conn).map_values(
                |handle: u64| BroadcastEvent::SenderLeft { conn: handle },
            ) + receivers_of(self.receivers, conn).map_values(
                |receiver: u64| BroadcastEvent::ReceiverRemoved { receiver },
            ),
        )
    }

    /// What a command from `conn` does, and what it announces. Commands on
    /// handles that `conn` does not own are ignored.
    pub open spec fn step(self, wire: BroadcastWire, conn: u64) -> (Self, Seq<BroadcastEvent>) {
        match wire {
            BroadcastWire::Send { conn: sender, ch } if self.owner_of(sender) == Some(conn) =>
                self.send(sender, ch),
            BroadcastWire::CloneSender { source } => self.clone_sender(source, conn),
            BroadcastWire::Subscribe => self.subscribe(conn),
            BroadcastWire::Unsubscribe { receiver } if self.operable(receiver, conn) => (
                BroadcastGame {
                    receivers: self.receivers.remove(receiver_index(self.receivers, receiver)),
                    ..self
                },
                seq![BroadcastEvent::ReceiverRemoved { receiver }],
            ),
            BroadcastWire::Receive { receiver } if self.operable(receiver, conn) =>
                self.receive_at(receiver_index(self.receivers, receiver)),
            BroadcastWire::ClaimPresenter => self.claim(conn),
            _ => (self, seq![]),
        }
    }
}

/// The state machine of the broadcast game. Channel truth lives in the core;
/// this driver owns the handle registries and the protocol mapping.
pub struct BroadcastSim {
    core: BroadcastCore<BufferChar>,
    senders: Vec<SenderInfo>,
    receivers: Vec<RxState>,
    /// The core slot of each receiver. Core slots are recycled on drop, so
    /// receiver ids (which the UI renders) are allocated separately and never
    /// reused.
    slots: Vec<usize>,
    next_receiver: u64,
    next_sender: u64,
    presenter: Option<u64>,
}

impl View for BroadcastSim {
    type V = BroadcastGame;

    closed spec fn view(&self) -> BroadcastGame {
        BroadcastGame {
            sent: self.core@.sent,
            senders: self.senders@,
            receivers: self.receivers@,
            next_receiver: self.next_receiver,
            next_sender: self.next_sender,
            presenter: self.presenter,
            ever_armed: self.core@.issued,
        }
    }
}

/// The core's live slots are exactly those of the listed receivers, at their
/// cursors.
spec fn mirrors(
    core: BroadcastState<BufferChar>,
    receivers: Seq<RxState>,
    slots: Seq<usize>,
) -> bool {
    &&& core.wf()
    &&& core.capacity == BROADCAST_CAPACITY
    &&& core.receivers() == receivers.len()
    &&& slots.len() == receivers.len()
    &&& forall|i: int| 0 <= i < slots.len() ==> core.live((#[trigger] slots[i]) as int)
    &&& forall|i: int|
        0 <= i < slots.len() ==> core.cursor((#[trigger] slots[i]) as int) + 1 == receivers[i].next
    &&& forall|i: int|
        0 <= i < slots.len() ==> core.slots[(#[trigger] slots[i]) as int].waiting is Some
            == receivers[i].waiting
    &&& forall|i: int, j: int|
        #![trigger slots[i], slots[j]]
        0 <= i < j < slots.len() ==> slots[i] != slots[j]
}

impl Default for BroadcastSim {
    fn default() -> (sim: Self)
        ensures
            sim.wf(),
            sim@ == BroadcastGame::fresh(),
    {
        Self::new()
    }
}

impl BroadcastSim {
    /// The channel that the game drives.
    pub closed spec fn channel(&self) -> BroadcastState<BufferChar> {
        self.core@
    }

    /// The channel's slot of each receiver.
    pub closed spec fn channel_slots(&self) -> Seq<usize> {
        self.slots@
    }

    /// The invariant that every command keeps.
    pub closed spec fn wf(&self) -> bool {
        &&& self@.wf()
        &&& self.core.wf()
        &&& self.core@.senders == self.senders@.len()
        &&& mirrors(self.core@, self.receivers@, self.slots@)
    }

    /// The invariant of the model is part of the game's.
    pub proof fn lemma_wf(&self)
        requires
            self.wf(),
        ensures
            self@.wf(),
    {
    }

    /// A channel with the host's seed sender and no receiver.
    pub fn new() -> (sim: Self)
        ensures
            sim.wf(),
            sim@ == BroadcastGame::fresh(),
    {
        let mut senders: Vec<SenderInfo> = Vec::new();
        senders.push(
            SenderInfo { conn: BROADCAST_HOST_CONN, owner: BROADCAST_HOST_CONN, blocked: false },
        );
        let sim = BroadcastSim {
            core: BroadcastCore::new(BROADCAST_CAPACITY),
            senders,
            receivers: Vec::new(),
            slots: Vec::new(),
            next_receiver: 1,
            next_sender: 1,
            presenter: None,
        };
        assert(sim@.senders =~= seq![
            SenderInfo { conn: BROADCAST_HOST_CONN, owner: BROADCAST_HOST_CONN, blocked: false },
        ]);
        sim
    }

    /// Who holds the presenter slot.
    pub fn presenter(&self) -> (presenter: Option<u64>)
        ensures
            presenter == self@.presenter,
    {
        self.presenter
    }

    fn find_sender(&self, conn: u64) -> (found: Option<usize>)
        ensures
            match found {
                Some(i) => {
                    &&& i < self@.senders.len()
                    &&& i == sender_index(self@.senders, conn)
                    &&& self@.senders[i as int].conn == conn
                },
                None => {
                    &&& sender_index(self@.senders, conn) == self@.senders.len()
                    &&& forall|k: int| 0 <= k < self@.senders.len()
                        ==> (#[trigger] self@.senders[k]).conn != conn
                },
            },
    {
        let mut i: usize = 0;
        assert(self.senders@.take(0) =~= Seq::empty());
        while i < self.senders.len()
            invariant
                i <= self.senders.len(),
                sender_index(self.senders@.take(i as int), conn) == i,
                forall|k: int| 0 <= k < i ==> (#[trigger] self.senders@[k]).conn != conn,
            decreases self.senders.len() - i,
        {
            proof {
                assert(self.senders@.take(i + 1).drop_last() =~= self.senders@.take(i as int));
                lemma_sender_prefix(self.senders@, conn, i + 1);
            }
            if self.senders[i].conn == conn {
                return Some(i);
            }
            i = i + 1;
        }
        assert(self.senders@.take(i as int) =~= self.senders@);
        None
    }

    fn find_receiver(&self, receiver: u64) -> (found: Option<usize>)
        ensures
            match found {
                Some(i) => {
                    &&& i < self@.receivers.len()
                    &&& i == receiver_index(self@.receivers, receiver)
                    &&& self@.receivers[i as int].receiver == receiver
                },
                None => receiver_index(self@.receivers, receiver) == self@.receivers.len(),
            },
    {
        let mut i: usize = 0;
        assert(self.receivers@.take(0) =~= Seq::empty());
        while i < self.receivers.len()
            invariant
                i <= self.receivers.len(),
                receiver_index(self.receivers@.take(i as int), receiver) == i,
            decreases self.receivers.len() - i,
        {
            proof {
                assert(self.receivers@.take(i + 1).drop_last() =~= self.receivers@.take(i as int));
                lemma_receiver_prefix(self.receivers@, receiver, i + 1);
            }
            if self.receivers[i].receiver == receiver {
                return Some(i);
            }
            i = i + 1;
        }
        assert(self.receivers@.take(i as int) =~= self.receivers@);
        None
    }

    /// Position of `receiver`, if `conn` may operate it.
    fn find_operable(&self, receiver: u64, conn: u64) -> (found: Option<usize>)
        ensures
            match found {
                Some(i) => {
                    &&& self@.operable(receiver, conn)
                    &&& i < self@.receivers.len()
                    &&& i == receiver_index(self@.receivers, receiver)
                },
                None => !self@.operable(receiver, conn),
            },
    {
        match self.find_receiver(receiver) {
            Some(i) => if self.receivers[i].owner == conn {
                Some(i)
            } else {
                None
            },
            None => None,
        }
    }

    /// Whether another command fits into the counters.
    pub fn has_room(&self) -> (room: bool)
        requires
            self.wf(),
        ensures
            room == self@.has_room(),
    {
        self.core.next_seq() < u64::MAX - 1 && self.core.issued() < u64::MAX && self.next_sender
            < u64::MAX && self.next_receiver < u64::MAX && self.senders.len() < usize::MAX
            && self.receivers.len() < usize::MAX
    }

    /// Whether `conn` is a live handle.
    pub fn contains_sender(&self, conn: u64) -> (contains: bool)
        ensures
            contains == self@.has_sender(conn),
    {
        match self.find_sender(conn) {
            Some(_) => true,
            None => false,
        }
    }

    /// Who owns the handle `conn`.
    pub fn owner_of_sender(&self, conn: u64) -> (owner: Option<u64>)
        ensures
            owner == self@.owner_of(conn),
    {
        match self.find_sender(conn) {
            Some(i) => Some(self.senders[i].owner),
            None => None,
        }
    }

    /// The handles that `conn` names or owns.
    pub fn owned_senders(&self, conn: u64) -> (handles: Vec<u64>)
        ensures
            handles@ == senders_of(self@.senders, conn),
    {
        let mut handles: Vec<u64> = Vec::new();
        let mut i: usize = 0;
        assert(self.senders@.take(0) =~= Seq::empty());
        while i < self.senders.len()
            invariant
                i <= self.senders.len(),
                handles@ == senders_of(self.senders@.take(i as int), conn),
            decreases self.senders.len() - i,
        {
            assert(self.senders@.take(i + 1).drop_last() =~= self.senders@.take(i as int));
            if self.senders[i].owner == conn || self.senders[i].conn == conn {
                handles.push(self.senders[i].conn);
            }
            i = i + 1;
        }
        assert(self.senders@.take(i as int) =~= self.senders@);
        handles
    }

    /// Every handle with its owner.
    pub fn owned_senders_all(&self) -> (handles: Vec<(u64, u64)>)
        ensures
            handles@ == self@.senders.map_values(
                |sender: SenderInfo| (sender.conn, sender.owner),
            ),
    {
        let mut handles: Vec<(u64, u64)> = Vec::new();
        let mut i: usize = 0;
        while i < self.senders.len()
            invariant
                i <= self.senders.len(),
                handles@ == self.senders@.take(i as int).map_values(
                    |sender: SenderInfo| (sender.conn, sender.owner),
                ),
            decreases self.senders.len() - i,
        {
            handles.push((self.senders[i].conn, self.senders[i].owner));
            i = i + 1;
            assert(handles@ =~= self.senders@.take(i as int).map_values(
                |sender: SenderInfo| (sender.conn, sender.owner),
            ));
        }
        assert(self.senders@.take(i as int) =~= self.senders@);
        handles
    }

    /// The receivers that `conn` owns.
    pub fn owned_receivers(&self, conn: u64) -> (ids: Vec<u64>)
        ensures
            ids@ == receivers_of(self@.receivers, conn),
    {
        let mut ids: Vec<u64> = Vec::new();
        let mut i: usize = 0;
        assert(self.receivers@.take(0) =~= Seq::empty());
        while i < self.receivers.len()
            invariant
                i <= self.receivers.len(),
                ids@ == receivers_of(self.receivers@.take(i as int), conn),
            decreases self.receivers.len() - i,
        {
            assert(self.receivers@.take(i + 1).drop_last() =~= self.receivers@.take(i as int));
            if self.receivers[i].owner == conn {
                ids.push(self.receivers[i].receiver);
            }
            i = i + 1;
        }
        assert(self.receivers@.take(i as int) =~= self.receivers@);
        ids
    }

    fn clone_sender(&mut self, source: u64, requester: u64) -> (events: Vec<BroadcastEvent>)
        requires
            old(self).wf(),
            old(self)@.next_sender < u64::MAX,
            old(self)@.senders.len() < usize::MAX,
        ensures
            final(self).wf(),
            (final(self)@, events@) == old(self)@.clone_sender(source, requester),
    {
        let mut events: Vec<BroadcastEvent> = Vec::new();
        if self.contains_sender(source) {
            let conn: u64 = self.next_sender;
            self.next_sender = self.next_sender + 1;
            self.senders.push(SenderInfo { conn, owner: requester, blocked: false });
            self.core.add_sender();
            events.push(BroadcastEvent::SenderJoined { conn, owner: requester });
        }
        assert(events@ =~= old(self)@.clone_sender(source, requester).1);
        events
    }

    /// Whether `conn` has subscribed.
    fn is_subscribed(&self, conn: u64) -> (subscribed: bool)
        ensures
            subscribed == self@.subscribed(conn),
    {
        let mut i: usize = 0;
        while i < self.receivers.len()
            invariant
                i <= self.receivers.len(),
                forall|k: int| 0 <= k < i ==> (#[trigger] self.receivers@[k]).owner != conn
                    && self.receivers@[k].conn != conn,
            decreases self.receivers.len() - i,
        {
            if self.receivers[i].owner == conn || self.receivers[i].conn == conn {
                assert(self@.receivers[i as int] == self.receivers@[i as int]);
                return true;
            }
            i = i + 1;
        }
        false
    }

    fn subscribe(&mut self, conn: u64) -> (events: Vec<BroadcastEvent>)
        requires
            old(self).wf(),
            old(self)@.next_receiver < u64::MAX,
            old(self)@.receivers.len() < usize::MAX,
        ensures
            final(self).wf(),
            (final(self)@, events@) == old(self)@.subscribe(conn),
    {
        let mut events: Vec<BroadcastEvent> = Vec::new();
        if !self.is_subscribed(conn) {
            let receiver: u64 = self.next_receiver;
            self.next_receiver = self.next_receiver + 1;
            proof {
                lemma_free_slot(self.core@.slots);
            }
            let slot = self.core.subscribe();
            let next: u64 = self.core.next_seq() + 1;
            self.slots.push(slot);
            self.receivers.push(
                RxState {
                    receiver,
                    conn,
                    owner: conn,
                    next,
                    lagged_total: 0,
                    last: None,
                    error: None,
                    waiting: false,
                },
            );
            events.push(BroadcastEvent::ReceiverAdded { receiver, owner: conn });
        }
        assert(events@ =~= old(self)@.subscribe(conn).1);
        events
    }

    /// Release a receiver's core slot and forget it.
    fn drop_receiver_at(&mut self, i: usize)
        requires
            old(self).wf(),
            i < old(self)@.receivers.len(),
        ensures
            final(self).wf(),
            final(self)@ == (BroadcastGame {
                receivers: old(self)@.receivers.remove(i as int),
                ..old(self)@
            }),
            final(self).senders == old(self).senders,
    {
        let slot = self.slots[i];
        self.core.drop_receiver(slot);
        self.slots.remove(i);
        self.receivers.remove(i);
        proof {
            lemma_mirrors_remove(
                old(self).core@,
                self.core@,
                old(self).receivers@,
                old(self).slots@,
                i as int,
            );
        }
    }

    fn send(&mut self, conn: u64, ch: char) -> (events: Vec<BroadcastEvent>)
        requires
            old(self).wf(),
            old(self)@.sent.len() + 1 < u64::MAX,
            old(self)@.ever_armed < u64::MAX,
        ensures
            final(self).wf(),
            (final(self)@, events@) == old(self)@.send(conn, ch),
    {
        let mut events: Vec<BroadcastEvent> = Vec::new();
        let value = BufferChar { ch, conn };
        let ghost before = self@;
        // remember the value at risk of eviction before the send lands
        let ring = self.core.ring();
        let full = ring.len() >= BROADCAST_CAPACITY;
        match self.core.send(value) {
            Ok(_) => {},
            Err(_) => {
                events.push(BroadcastEvent::SendRefused);
                assert(events@ =~= before.send(conn, ch).1);
                return events;
            },
        }
        events.push(BroadcastEvent::InFlight { conn, ch });
        if full {
            events.push(BroadcastEvent::Evicted { ch: ring[0].1.ch });
        }
        let ghost base = events@;
        let ghost after = BroadcastGame { sent: before.sent.push(value), ..before };
        assert(base =~= seq![BroadcastEvent::InFlight { conn, ch }] + (if before.sent.len()
            >= BROADCAST_CAPACITY {
            seq![BroadcastEvent::Evicted { ch: before.sent[before.oldest() as int].ch }]
        } else {
            seq![]
        }));
        let mut i: usize = 0;
        proof {
            assert(before.receivers.take(0) =~= Seq::empty());
            assert(base + Seq::<BroadcastEvent>::empty() =~= base);
        }
        while i < self.receivers.len()
            invariant
                i <= self.receivers.len(),
                before.wf(),
                before.sent.len() + 1 < u64::MAX,
                before.ever_armed < u64::MAX,
                self.receivers.len() == before.receivers.len(),
                after == (BroadcastGame { sent: before.sent.push(value), ..before }),
                self.core.wf(),
                mirrors(self.core@, self.receivers@, self.slots@),
                self.core@.senders == self.senders@.len(),
                self@ == (BroadcastGame { receivers: self.receivers@, ..after }),
                forall|k: int| 0 <= k < i ==> #[trigger] self.receivers@[k] == served(
                    before.receivers[k],
                    value,
                ),
                forall|k: int| i <= k < self.receivers.len() ==> #[trigger] self.receivers@[k]
                    == before.receivers[k],
                value == (BufferChar { ch, conn }),
                events@ == base + served_events(before.receivers.take(i as int), ch),
            decreases self.receivers.len() - i,
        {
            proof {
                assert(before.receivers.take(i + 1).drop_last() =~= before.receivers.take(
                    i as int,
                ));
            }
            let ghost earlier = events@;
            if self.receivers[i].waiting {
                let ghost now = self@;
                proof {
                    assert(now.receivers[i as int] == before.receivers[i as int]);
                    assert(before.receivers[i as int].next == before.sent.len() + 1);
                }
                let event = self.receive_step(i);
                proof {
                    assert(now.receive_at(i as int).0.receivers[i as int] == served(
                        before.receivers[i as int],
                        value,
                    ));
                    assert(event == Some(
                        BroadcastEvent::Received {
                            receiver: before.receivers[i as int].receiver,
                            ch,
                        },
                    )) by {
                        assert(now.receive_at(i as int).1[0] == (BroadcastEvent::Received {
                            receiver: before.receivers[i as int].receiver,
                            ch,
                        }));
                    }
                }
                match event {
                    Some(event) => {
                        events.push(event);
                    },
                    None => {},
                }
                proof {
                    let received = BroadcastEvent::Received {
                        receiver: before.receivers[i as int].receiver,
                        ch,
                    };
                    assert(events@ =~= base + served_events(
                        before.receivers.take(i as int),
                        ch,
                    ).push(received));
                }
            }
            i = i + 1;
        }
        proof {
            assert(before.receivers.take(i as int) =~= before.receivers);
            assert(self@ =~= before.send(conn, ch).0);
            assert(events@ =~= before.send(conn, ch).1);
        }
        events
    }

    /// One receive at the receiver at position `i`: a value, a lag report,
    /// closure, or arming it to complete on the next send.
    fn receive_step(&mut self, i: usize) -> (event: Option<BroadcastEvent>)
        requires
            old(self).core.wf(),
            mirrors(old(self).core@, old(self).receivers@, old(self).slots@),
            old(self).core@.senders == old(self).senders@.len(),
            i < old(self).receivers@.len(),
            old(self)@.sent.len() < u64::MAX,
            old(self)@.ever_armed < u64::MAX,
            old(self)@.receivers[i as int].lagged_total < old(self)@.receivers[i as int].next,
        ensures
            final(self).core.wf(),
            mirrors(final(self).core@, final(self).receivers@, final(self).slots@),
            final(self).senders == old(self).senders,
            final(self).core@.senders == old(self).core@.senders,
            ({
                let (after, events) = old(self)@.receive_at(i as int);
                &&& final(self)@ == after
                &&& match event {
                    Some(event) => events == seq![event],
                    None => events.len() == 0,
                }
            }),
    {
        let slot = self.slots[i];
        let rx = self.receivers[i];
        let poll = self.core.poll_recv(slot);
        let ghost moved = self.core@;
        let event = match poll {
            BroadcastPoll::Value(value) => {
                self.receivers.set(
                    i,
                    RxState {
                        receiver: rx.receiver,
                        conn: rx.conn,
                        owner: rx.owner,
                        next: rx.next + 1,
                        lagged_total: rx.lagged_total,
                        last: Some(value),
                        error: None,
                        waiting: false,
                    },
                );
                Some(BroadcastEvent::Received { receiver: rx.receiver, ch: value.ch })
            },
            BroadcastPoll::Lagged { skipped } => {
                self.receivers.set(
                    i,
                    RxState {
                        receiver: rx.receiver,
                        conn: rx.conn,
                        owner: rx.owner,
                        next: rx.next + skipped,
                        lagged_total: rx.lagged_total + skipped,
                        last: rx.last,
                        error: Some(BroadcastError::Lagged(skipped)),
                        waiting: false,
                    },
                );
                Some(BroadcastEvent::Lagged { receiver: rx.receiver, n: skipped })
            },
            BroadcastPoll::Closed => {
                self.receivers.set(
                    i,
                    RxState {
                        receiver: rx.receiver,
                        conn: rx.conn,
                        owner: rx.owner,
                        next: rx.next,
                        lagged_total: rx.lagged_total,
                        last: rx.last,
                        error: Some(BroadcastError::Closed),
                        waiting: false,
                    },
                );
                None
            },
            BroadcastPoll::Empty { .. } => {
                self.receivers.set(
                    i,
                    RxState {
                        receiver: rx.receiver,
                        conn: rx.conn,
                        owner: rx.owner,
                        next: rx.next,
                        lagged_total: rx.lagged_total,
                        last: rx.last,
                        error: rx.error,
                        waiting: true,
                    },
                );
                None
            },
        };
        proof {
            assert(self@ =~= old(self)@.receive_at(i as int).0);
            lemma_mirrors_update(
                old(self).core@,
                moved,
                old(self).receivers@,
                self.receivers@,
                self.slots@,
                i as int,
            );
        }
        event
    }

    fn claim(&mut self, conn: u64) -> (events: Vec<BroadcastEvent>)
        requires
            old(self).wf(),
            old(self)@.senders.len() < usize::MAX,
        ensures
            final(self).wf(),
            (final(self)@, events@) == old(self)@.claim(conn),
    {
        let mut events: Vec<BroadcastEvent> = Vec::new();
        let ghost before = self@;
        self.presenter = Some(conn);
        if !self.contains_sender(BROADCAST_HOST_CONN) {
            self.senders.push(
                SenderInfo { conn: BROADCAST_HOST_CONN, owner: conn, blocked: false },
            );
            self.core.add_sender();
            events.push(BroadcastEvent::SenderJoined { conn: BROADCAST_HOST_CONN, owner: conn });
        }
        let ghost seeded = self.senders@;
        // host-owned senders transfer to the new presenter
        let mut i: usize = 0;
        while i < self.senders.len()
            invariant
                i <= self.senders.len(),
                self.senders.len() == seeded.len(),
                self.core.wf(),
                self.core@.senders == seeded.len(),
                mirrors(self.core@, self.receivers@, self.slots@),
                self@ == (BroadcastGame {
                    senders: self.senders@,
                    presenter: Some(conn),
                    ..before
                }),
                forall|k: int| 0 <= k < i ==> #[trigger] self.senders@[k] == claimed(
                    seeded[k],
                    conn,
                ),
                forall|k: int| i <= k < self.senders.len() ==> #[trigger] self.senders@[k]
                    == seeded[k],
            decreases self.senders.len() - i,
        {
            let sender = self.senders[i];
            if sender.owner == BROADCAST_HOST_CONN {
                self.senders.set(
                    i,
                    SenderInfo { conn: sender.conn, owner: conn, blocked: sender.blocked },
                );
            }
            i = i + 1;
        }
        proof {
            assert(self@ =~= before.claim(conn).0);
            assert(events@ =~= before.claim(conn).1);
            lemma_claim_wf(before, conn);
        }
        events
    }

    /// A connection left: the handles it owns drop, its receiver is removed,
    /// and clones that others own survive. Emptying the senders closes the
    /// channel.
    pub fn drop_connection(&mut self, conn: u64) -> (events: Vec<BroadcastEvent>)
        requires
            old(self).wf(),
        ensures
            final(self).wf(),
            (final(self)@, events@) == old(self)@.leave(conn),
    {
        let ghost before = self@;
        let mut events = self.drop_senders(conn);
        let mut removed = self.drop_receivers(conn);
        events.append(&mut removed);
        match self.presenter {
            Some(presenter) => if presenter == conn {
                self.presenter = None;
            },
            None => {},
        }
        assert(self@ =~= before.leave(conn).0);
        events
    }

    fn drop_senders(&mut self, conn: u64) -> (events: Vec<BroadcastEvent>)
        requires
            old(self).wf(),
        ensures
            final(self).wf(),
            final(self)@ == (BroadcastGame {
                senders: staying_senders(old(self)@.senders, conn),
                ..old(self)@
            }),
            events@ == departing_senders(old(self)@.senders, conn).map_values(
                |handle: u64| BroadcastEvent::SenderLeft { conn: handle },
            ),
    {
        let mut events: Vec<BroadcastEvent> = Vec::new();
        let ghost senders = self.senders@;
        let ghost mut seen: int = 0;
        let mut i: usize = 0;
        proof {
            assert(senders.take(0) =~= Seq::empty());
            assert(self.senders@.take(0) =~= Seq::empty());
            assert(departing_senders(senders.take(0), conn).map_values(
                |handle: u64| BroadcastEvent::SenderLeft { conn: handle },
            ) =~= Seq::empty());
        }
        while i < self.senders.len()
            invariant
                0 <= i <= self.senders.len(),
                0 <= seen <= senders.len(),
                senders == old(self)@.senders,
                self.wf(),
                self.senders@.skip(i as int) == senders.skip(seen),
                self.senders@.take(i as int) == staying_senders(senders.take(seen), conn),
                events@ == departing_senders(senders.take(seen), conn).map_values(
                    |handle: u64| BroadcastEvent::SenderLeft { conn: handle },
                ),
                self@ == (BroadcastGame { senders: self.senders@, ..old(self)@ }),
            decreases self.senders.len() - i,
        {
            let sender = self.senders[i];
            let ghost here = self.senders@;
            let ghost earlier = departing_senders(senders.take(seen), conn);
            let ghost game = self@;
            proof {
                assert(here.skip(i as int).len() == senders.len() - seen);
                assert(here.skip(i as int)[0] == here[i as int]);
                assert(senders.skip(seen)[0] == senders[seen]);
                assert(senders.take(seen + 1).drop_last() =~= senders.take(seen));
                assert(senders.skip(seen).skip(1) =~= senders.skip(seen + 1));
            }
            if sender.owner == conn {
                self.senders.remove(i);
                self.core.drop_sender();
                events.push(BroadcastEvent::SenderLeft { conn: sender.conn });
                proof {
                    assert(self.senders@.take(i as int) =~= here.take(i as int));
                    assert(self.senders@.skip(i as int) =~= here.skip(i as int).skip(1));
                    assert(earlier.push(sender.conn).map_values(
                        |handle: u64| BroadcastEvent::SenderLeft { conn: handle },
                    ) =~= earlier.map_values(
                        |handle: u64| BroadcastEvent::SenderLeft { conn: handle },
                    ).push(BroadcastEvent::SenderLeft { conn: sender.conn }));
                    lemma_sender_removed_wf(game, self@, i as int);
                }
            } else {
                i = i + 1;
                proof {
                    assert(self.senders@.skip(i as int) =~= here.skip(i - 1).skip(1));
                    assert(self.senders@.take(i as int) =~= here.take(i - 1).push(sender));
                }
            }
            proof {
                seen = seen + 1;
            }
        }
        proof {
            assert(self.senders@.take(i as int) =~= self.senders@);
            assert(self.senders@.skip(i as int).len() == 0);
            assert(senders.take(seen) =~= senders);
        }
        events
    }

    fn drop_receivers(&mut self, conn: u64) -> (events: Vec<BroadcastEvent>)
        requires
            old(self).wf(),
        ensures
            final(self).wf(),
            final(self)@ == (BroadcastGame {
                receivers: staying_receivers(old(self)@.receivers, conn),
                ..old(self)@
            }),
            events@ == receivers_of(old(self)@.receivers, conn).map_values(
                |receiver: u64| BroadcastEvent::ReceiverRemoved { receiver },
            ),
    {
        let mut events: Vec<BroadcastEvent> = Vec::new();
        let ghost receivers = self.receivers@;
        let ghost mut seen: int = 0;
        let mut i: usize = 0;
        proof {
            assert(receivers.take(0) =~= Seq::empty());
            assert(self.receivers@.take(0) =~= Seq::empty());
            assert(receivers_of(receivers.take(0), conn).map_values(
                |receiver: u64| BroadcastEvent::ReceiverRemoved { receiver },
            ) =~= Seq::empty());
        }
        while i < self.receivers.len()
            invariant
                0 <= i <= self.receivers.len(),
                0 <= seen <= receivers.len(),
                receivers == old(self)@.receivers,
                self.wf(),
                self.receivers@.skip(i as int) == receivers.skip(seen),
                self.receivers@.take(i as int) == staying_receivers(receivers.take(seen), conn),
                events@ == receivers_of(receivers.take(seen), conn).map_values(
                    |receiver: u64| BroadcastEvent::ReceiverRemoved { receiver },
                ),
                self@ == (BroadcastGame { receivers: self.receivers@, ..old(self)@ }),
            decreases self.receivers.len() - i,
        {
            let rx = self.receivers[i];
            let ghost here = self.receivers@;
            let ghost earlier = receivers_of(receivers.take(seen), conn);
            proof {
                assert(here.skip(i as int).len() == receivers.len() - seen);
                assert(here.skip(i as int)[0] == here[i as int]);
                assert(receivers.skip(seen)[0] == receivers[seen]);
                assert(receivers.take(seen + 1).drop_last() =~= receivers.take(seen));
                assert(receivers.skip(seen).skip(1) =~= receivers.skip(seen + 1));
            }
            if rx.owner == conn {
                self.drop_receiver_at(i);
                events.push(BroadcastEvent::ReceiverRemoved { receiver: rx.receiver });
                proof {
                    assert(self.receivers@ == here.remove(i as int));
                    assert(self.receivers@.take(i as int) =~= here.take(i as int));
                    assert(self.receivers@.skip(i as int) =~= here.skip(i as int).skip(1));
                    assert(earlier.push(rx.receiver).map_values(
                        |receiver: u64| BroadcastEvent::ReceiverRemoved { receiver },
                    ) =~= earlier.map_values(
                        |receiver: u64| BroadcastEvent::ReceiverRemoved { receiver },
                    ).push(BroadcastEvent::ReceiverRemoved { receiver: rx.receiver }));
                }
            } else {
                i = i + 1;
                proof {
                    assert(self.receivers@.skip(i as int) =~= here.skip(i - 1).skip(1));
                    assert(self.receivers@.take(i as int) =~= here.take(i - 1).push(rx));
                }
            }
            proof {
                seen = seen + 1;
            }
        }
        proof {
            assert(self.receivers@.take(i as int) =~= self.receivers@);
            assert(self.receivers@.skip(i as int).len() == 0);
            assert(receivers.take(seen) =~= receivers);
        }
        events
    }

    /// Carry out a command from `conn` and announce what happened.
    pub fn handle(&mut self, wire: &BroadcastWire, conn: u64) -> (events: Vec<BroadcastEvent>)
        requires
            old(self).wf(),
            old(self)@.has_room(),
        ensures
            final(self).wf(),
            (final(self)@, events@) == old(self)@.step(*wire, conn),
    {
        match wire {
            BroadcastWire::Send { conn: sender, ch } => {
                let mine = match self.owner_of_sender(*sender) {
                    Some(owner) => owner == conn,
                    None => false,
                };
                if mine {
                    return self.send(*sender, *ch);
                }
            },
            BroadcastWire::CloneSender { source } => {
                return self.clone_sender(*source, conn);
            },
            BroadcastWire::Subscribe => {
                return self.subscribe(conn);
            },
            BroadcastWire::Unsubscribe { receiver } => {
                match self.find_operable(*receiver, conn) {
                    Some(i) => {
                        self.drop_receiver_at(i);
                        let mut events: Vec<BroadcastEvent> = Vec::new();
                        events.push(BroadcastEvent::ReceiverRemoved { receiver: *receiver });
                        assert(events@ =~= old(self)@.step(*wire, conn).1);
                        return events;
                    },
                    None => {},
                }
            },
            BroadcastWire::Receive { receiver } => {
                match self.find_operable(*receiver, conn) {
                    Some(i) => {
                        let mut events: Vec<BroadcastEvent> = Vec::new();
                        match self.receive_step(i) {
                            Some(event) => {
                                events.push(event);
                            },
                            None => {},
                        }
                        proof {
                            lemma_receive_wf(old(self)@, i as int);
                            assert(events@ =~= old(self)@.step(*wire, conn).1);
                        }
                        return events;
                    },
                    None => {},
                }
            },
            BroadcastWire::ClaimPresenter => {
                return self.claim(conn);
            },
        }
        let events: Vec<BroadcastEvent> = Vec::new();
        assert(events@ =~= old(self)@.step(*wire, conn).1);
        events
    }

    /// The full state, as clients see it.
    pub fn snapshot(&self) -> (snapshot: BroadcastSnapshot)
        requires
            self.wf(),
        ensures
            self@.shown_by(snapshot),
    {
        let ring = self.core.ring();
        let mut buffer: Vec<BufferChar> = Vec::new();
        let mut i: usize = 0;
        while i < ring.len()
            invariant
                i <= ring.len(),
                buffer@ == ring@.take(i as int).map_values(|entry: (u64, BufferChar)| entry.1),
            decreases ring.len() - i,
        {
            buffer.push(ring[i].1);
            i = i + 1;
            assert(buffer@ =~= ring@.take(i as int).map_values(
                |entry: (u64, BufferChar)| entry.1,
            ));
        }
        assert(buffer@ =~= self@.ring());
        let senders = self.senders.clone();
        assert(senders@ =~= self.senders@);
        let receivers = self.receivers.clone();
        assert(receivers@ =~= self.receivers@);
        BroadcastSnapshot {
            senders,
            buffer,
            tail: self.core.next_seq(),
            receivers,
            presenter: self.presenter,
        }
    }
}

proof fn lemma_sender_prefix(senders: Seq<SenderInfo>, conn: u64, n: int)
    requires
        0 <= n <= senders.len(),
    ensures
        0 <= sender_index(senders.take(n), conn) <= n,
        sender_index(senders.take(n), conn) < n ==> sender_index(senders, conn) == sender_index(
            senders.take(n),
            conn,
        ),
    decreases senders.len(),
{
    if n < senders.len() {
        lemma_sender_prefix(senders.drop_last(), conn, n);
        assert(senders.drop_last().take(n) =~= senders.take(n));
    } else {
        assert(senders.take(n) =~= senders);
        if n > 0 {
            lemma_sender_prefix(senders.drop_last(), conn, n - 1);
            assert(senders.drop_last().take(n - 1) =~= senders.drop_last());
        }
    }
}

/// A handle that is not found is not there.
proof fn lemma_sender_absent(senders: Seq<SenderInfo>, conn: u64)
    ensures
        0 <= sender_index(senders, conn) <= senders.len(),
        sender_index(senders, conn) == senders.len() ==> forall|k: int|
            0 <= k < senders.len() ==> (#[trigger] senders[k]).conn != conn,
    decreases senders.len(),
{
    if senders.len() > 0 {
        lemma_sender_absent(senders.drop_last(), conn);
        if sender_index(senders, conn) == senders.len() {
            assert forall|k: int| 0 <= k < senders.len() implies (#[trigger] senders[k]).conn
                != conn by {
                if k < senders.len() - 1 {
                    assert(senders.drop_last()[k] == senders[k]);
                }
            }
        }
    }
}

proof fn lemma_receiver_prefix(receivers: Seq<RxState>, id: u64, n: int)
    requires
        0 <= n <= receivers.len(),
    ensures
        0 <= receiver_index(receivers.take(n), id) <= n,
        receiver_index(receivers.take(n), id) < n ==> receiver_index(receivers, id)
            == receiver_index(receivers.take(n), id),
    decreases receivers.len(),
{
    if n < receivers.len() {
        lemma_receiver_prefix(receivers.drop_last(), id, n);
        assert(receivers.drop_last().take(n) =~= receivers.take(n));
    } else {
        assert(receivers.take(n) =~= receivers);
        if n > 0 {
            lemma_receiver_prefix(receivers.drop_last(), id, n - 1);
            assert(receivers.drop_last().take(n - 1) =~= receivers.drop_last());
        }
    }
}

/// Dropping one receiver's slot leaves the others where they were.
proof fn lemma_mirrors_remove(
    before: BroadcastState<BufferChar>,
    after: BroadcastState<BufferChar>,
    receivers: Seq<RxState>,
    slots: Seq<usize>,
    k: int,
)
    requires
        mirrors(before, receivers, slots),
        0 <= k < slots.len(),
        after.wf(),
        after.receivers() == before.receivers() - 1,
        after.capacity == before.capacity,
        after.slots.len() == before.slots.len(),
        forall|id: int|
            0 <= id < before.slots.len() && id != slots[k] ==> #[trigger] after.slots[id]
                == before.slots[id],
    ensures
        mirrors(after, receivers.remove(k), slots.remove(k)),
{
    let left = slots.remove(k);
    assert forall|i: int| 0 <= i < left.len() implies after.slots[(#[trigger] left[i]) as int]
        == before.slots[left[i] as int] && before.live(left[i] as int) by {
        let j = if i < k {
            i
        } else {
            i + 1
        };
        assert(left[i] == slots[j]);
        assert(slots[j] != slots[k]);
    }
    assert forall|i: int| 0 <= i < left.len() implies after.cursor((#[trigger] left[i]) as int) + 1
        == receivers.remove(k)[i].next by {
        let j = if i < k {
            i
        } else {
            i + 1
        };
        assert(left[i] == slots[j]);
    }
    assert forall|i: int| 0 <= i < left.len() implies after.slots[(
    #[trigger] left[i]) as int].waiting is Some == receivers.remove(k)[i].waiting by {
        let j = if i < k {
            i
        } else {
            i + 1
        };
        assert(left[i] == slots[j]);
    }
    assert forall|i: int, j: int|
        #![trigger left[i], left[j]]
        0 <= i < j < left.len() implies left[i] != left[j] by {
        let a = if i < k {
            i
        } else {
            i + 1
        };
        let b = if j < k {
            j
        } else {
            j + 1
        };
        assert(slots[a] != slots[b]);
    }
}

/// Moving one receiver's slot leaves the others where they were.
proof fn lemma_mirrors_update(
    before: BroadcastState<BufferChar>,
    after: BroadcastState<BufferChar>,
    receivers: Seq<RxState>,
    updated: Seq<RxState>,
    slots: Seq<usize>,
    k: int,
)
    requires
        mirrors(before, receivers, slots),
        0 <= k < slots.len(),
        after.wf(),
        after.receivers() == before.receivers(),
        after.capacity == before.capacity,
        after.slots.len() == before.slots.len(),
        forall|id: int|
            0 <= id < before.slots.len() && id != slots[k] ==> #[trigger] after.slots[id]
                == before.slots[id],
        after.live(slots[k] as int),
        updated.len() == receivers.len(),
        forall|i: int| 0 <= i < receivers.len() && i != k ==> #[trigger] updated[i] == receivers[i],
        after.cursor(slots[k] as int) + 1 == updated[k].next,
        after.slots[slots[k] as int].waiting is Some == updated[k].waiting,
    ensures
        mirrors(after, updated, slots),
{
    assert forall|i: int| 0 <= i < slots.len() && i != k implies after.slots[(
    #[trigger] slots[i]) as int] == before.slots[slots[i] as int] by {
        assert(slots[i] != slots[k]);
    }
}

proof fn lemma_claim_wf(game: BroadcastGame, conn: u64)
    requires
        game.wf(),
    ensures
        game.claim(conn).0.wf(),
{
    lemma_sender_absent(game.senders, BROADCAST_HOST_CONN);
    let after = game.claim(conn).0;
    assert forall|i: int, j: int|
        #![trigger after.senders[i], after.senders[j]]
        0 <= i < j < after.senders.len() implies after.senders[i].conn != after.senders[j].conn by {
        if j < game.senders.len() {
            assert(game.senders[i].conn != game.senders[j].conn);
        } else {
            assert(game.senders[i].conn != BROADCAST_HOST_CONN);
        }
    }
    assert forall|i: int| 0 <= i < after.senders.len() implies (#[trigger] after.senders[i]).conn
        < after.next_sender by {
        if i < game.senders.len() {
            assert(game.senders[i].conn < game.next_sender);
        }
    }
}

proof fn lemma_sender_removed_wf(before: BroadcastGame, after: BroadcastGame, k: int)
    requires
        before.wf(),
        0 <= k < before.senders.len(),
        after == (BroadcastGame { senders: before.senders.remove(k), ..before }),
    ensures
        after.wf(),
{
    assert forall|i: int, j: int|
        #![trigger after.senders[i], after.senders[j]]
        0 <= i < j < after.senders.len() implies after.senders[i].conn != after.senders[j].conn by {
        let a = if i < k {
            i
        } else {
            i + 1
        };
        let b = if j < k {
            j
        } else {
            j + 1
        };
        assert(before.senders[a].conn != before.senders[b].conn);
    }
    assert forall|i: int| 0 <= i < after.senders.len() implies (#[trigger] after.senders[i]).conn
        < after.next_sender by {
        let a = if i < k {
            i
        } else {
            i + 1
        };
        assert(before.senders[a].conn < before.next_sender);
    }
}

proof fn lemma_receive_wf(game: BroadcastGame, k: int)
    requires
        game.wf(),
        0 <= k < game.receivers.len(),
    ensures
        game.receive_at(k).0.wf(),
{
    let after = game.receive_at(k).0;
    assert forall|i: int, j: int|
        #![trigger after.receivers[i], after.receivers[j]]
        0 <= i < j < after.receivers.len() implies after.receivers[i].receiver
        < after.receivers[j].receiver by {
        assert(game.receivers[i].receiver < game.receivers[j].receiver);
    }
}

/// The game agrees with the channel it drives: both retain the same values and
/// count the same handles, and every receiver stands where its slot of the
/// channel stands.
pub proof fn law_driver_agrees_with_the_channel(sim: &BroadcastSim)
    requires
        sim.wf(),
    ensures
        sim.channel().wf(),
        sim.channel().ring() == sim@.ring(),
        sim.channel().oldest() == sim@.oldest(),
        sim.channel().senders == sim@.senders.len(),
        sim.channel().receivers() == sim@.receivers.len(),
        sim.channel_slots().len() == sim@.receivers.len(),
        forall|i: int|
            0 <= i < sim@.receivers.len() ==> {
                let slot = (#[trigger] sim.channel_slots()[i]) as int;
                &&& sim.channel().live(slot)
                &&& sim.channel().cursor(slot) + 1 == sim@.receivers[i].next
                &&& sim.channel().slots[slot].waiting is Some == sim@.receivers[i].waiting
            },
{
}

/// A closed channel drains first: whatever is retained and unread is still
/// received, with or without senders, and only a receiver that has read
/// everything sees the channel closed.
pub proof fn law_closed_channel_drains_first(game: BroadcastGame, i: int)
    requires
        game.wf(),
        game.senders.len() == 0,
        0 <= i < game.receivers.len(),
    ensures
        ({
            let (after, events) = game.receive_at(i);
            let cursor = game.receivers[i].next - 1;
            &&& game.oldest() <= cursor < game.sent.len() ==> after.receivers[i].last == Some(
                game.sent[cursor],
            )
            &&& after.receivers[i].error == Some(BroadcastError::Closed)
                && game.receivers[i].error != Some(BroadcastError::Closed) ==> cursor
                == game.sent.len()
            &&& cursor == game.sent.len() ==> after.receivers[i].error == Some(
                BroadcastError::Closed,
            )
        }),
{
}

/// A receiver that fell behind misses exactly the values that were evicted
/// unread, and its next receive yields the oldest retained one, with the error
/// cleared.
pub proof fn law_lag_then_resume(game: BroadcastGame, i: int)
    requires
        game.wf(),
        0 <= i < game.receivers.len(),
        game.receivers[i].next - 1 < game.oldest(),
    ensures
        ({
            let rx = game.receivers[i];
            let (lagged, report) = game.receive_at(i);
            let (resumed, received) = lagged.receive_at(i);
            let value = game.sent[game.oldest() as int];
            let n = (game.sent.len() - BROADCAST_CAPACITY - (rx.next - 1)) as u64;
            &&& report == seq![BroadcastEvent::Lagged { receiver: rx.receiver, n }]
            &&& lagged.receivers[i].error == Some(BroadcastError::Lagged(n))
            &&& lagged.receivers[i].lagged_total == rx.lagged_total + n
            &&& received == seq![
                BroadcastEvent::Received { receiver: rx.receiver, ch: value.ch },
            ]
            &&& resumed.receivers[i].last == Some(value)
            &&& resumed.receivers[i].error is None
        }),
{
}

/// A send reaches every receiver: one that waited has received the value, for
/// every other one it is still to come.
pub proof fn law_send_reaches_every_receiver(game: BroadcastGame, conn: u64, ch: char, i: int)
    requires
        game.wf(),
        game.sent.len() + 1 < u64::MAX,
        0 <= i < game.receivers.len(),
    ensures
        ({
            let after = game.send(conn, ch).0;
            let value = BufferChar { ch, conn };
            &&& after.sent == game.sent.push(value)
            &&& !after.receivers[i].waiting
            &&& game.receivers[i].waiting ==> after.receivers[i].last == Some(value)
                && after.receivers[i].next == after.sent.len() + 1
            &&& !game.receivers[i].waiting ==> after.receivers[i] == game.receivers[i]
                && after.receivers[i].next <= after.sent.len()
        }),
{
}

/// One receiver per connection: whoever owns none can subscribe, subscribing
/// again changes nothing, and a new receiver stands behind everything sent
/// before.
pub proof fn law_one_receiver_per_connection(game: BroadcastGame, conn: u64)
    requires
        game.wf(),
    ensures
        ({
            let after = game.subscribe(conn).0;
            &&& after.subscribed(conn)
            &&& after.subscribe(conn) == (after, Seq::<BroadcastEvent>::empty())
            &&& after.sent == game.sent
            &&& after.senders == game.senders
            &&& game.subscribed(conn) ==> after == game
            &&& !game.subscribed(conn) ==> after.receivers == game.receivers.push(
                RxState {
                    receiver: game.next_receiver,
                    conn,
                    owner: conn,
                    next: (game.sent.len() + 1) as u64,
                    lagged_total: 0,
                    last: None,
                    error: None,
                    waiting: false,
                },
            )
        }),
        game.subscribed(conn) <==> exists|i: int|
            0 <= i < game.receivers.len() && (#[trigger] game.receivers[i]).owner == conn,
        !game.subscribed(conn) ==> game.subscribe(conn).1 == seq![
            BroadcastEvent::ReceiverAdded { receiver: game.next_receiver, owner: conn },
        ],
{
    let after = game.subscribe(conn).0;
    if !game.subscribed(conn) {
        assert(after.receivers[game.receivers.len() as int].owner == conn);
    }
}

/// What can happen to the game.
pub enum BroadcastTurn {
    /// A command arrives from `conn`.
    Command { wire: BroadcastWire, conn: u64 },
    /// `conn` leaves.
    Leave { conn: u64 },
}

impl BroadcastGame {
    /// The state after one turn.
    pub open spec fn after(self, turn: BroadcastTurn) -> Self {
        match turn {
            BroadcastTurn::Command { wire, conn } => self.step(wire, conn).0,
            BroadcastTurn::Leave { conn } => self.leave(conn).0,
        }
    }

    /// The state after a run of turns.
    pub open spec fn run(self, turns: Seq<BroadcastTurn>) -> Self
        decreases turns.len(),
    {
        if turns.len() == 0 {
            self
        } else {
            self.run(turns.drop_last()).after(turns.last())
        }
    }

    /// Whether a receiver bears this id.
    pub open spec fn has_receiver(self, id: u64) -> bool {
        exists|i: int|
            0 <= i < self.receivers.len() && (#[trigger] self.receivers[i]).receiver == id
    }
}

/// Whoever stays was there.
proof fn lemma_stayers_were_there(receivers: Seq<RxState>, conn: u64, i: int)
    requires
        0 <= i < staying_receivers(receivers, conn).len(),
    ensures
        receivers.contains(staying_receivers(receivers, conn)[i]),
    decreases receivers.len(),
{
    if receivers.len() > 0 {
        let rest = receivers.drop_last();
        if i < staying_receivers(rest, conn).len() {
            lemma_stayers_were_there(rest, conn, i);
            let j = choose|j: int|
                0 <= j < rest.len() && rest[j] == staying_receivers(rest, conn)[i];
            assert(receivers[j] == rest[j]);
        } else {
            assert(receivers[receivers.len() - 1] == staying_receivers(receivers, conn)[i]);
        }
    }
}

/// Nothing but a new receiver has an id that was not there before.
proof fn lemma_turn_keeps_ids(game: BroadcastGame, turn: BroadcastTurn, i: int)
    requires
        game.next_receiver < u64::MAX,
        0 <= i < game.after(turn).receivers.len(),
    ensures
        game.next_receiver <= game.after(turn).receivers[i].receiver || game.has_receiver(
            game.after(turn).receivers[i].receiver,
        ),
{
    let after = game.after(turn);
    match turn {
        BroadcastTurn::Leave { conn } => {
            lemma_stayers_were_there(game.receivers, conn, i);
            let j = choose|j: int|
                0 <= j < game.receivers.len() && game.receivers[j] == after.receivers[i];
            assert(game.receivers[j].receiver == after.receivers[i].receiver);
        },
        BroadcastTurn::Command { wire, conn } => match wire {
            BroadcastWire::Unsubscribe { receiver } if game.operable(receiver, conn) => {
                let count = game.receivers.len() as int;
                assert(game.receivers.take(count) =~= game.receivers);
                lemma_receiver_prefix(game.receivers, receiver, count);
                let k = receiver_index(game.receivers, receiver);
                let j = if i < k {
                    i
                } else {
                    i + 1
                };
                assert(game.receivers[j].receiver == after.receivers[i].receiver);
            },
            BroadcastWire::Receive { receiver } if game.operable(receiver, conn) => {
                let count = game.receivers.len() as int;
                assert(game.receivers.take(count) =~= game.receivers);
                lemma_receiver_prefix(game.receivers, receiver, count);
                assert(game.receivers[i].receiver == after.receivers[i].receiver);
            },
            _ => {
                if i < game.receivers.len() {
                    assert(game.receivers[i].receiver == after.receivers[i].receiver);
                }
            },
        },
    }
}

/// The id of a receiver is never reused: over any run, a receiver that is
/// there was there at the start or has an id that had not been issued, and the
/// next id to issue never goes back.
pub proof fn law_receiver_ids_are_never_reused(game: BroadcastGame, turns: Seq<BroadcastTurn>)
    requires
        game.next_receiver + turns.len() <= u64::MAX,
    ensures
        game.next_receiver <= game.run(turns).next_receiver <= game.next_receiver + turns.len(),
        forall|i: int|
            0 <= i < game.run(turns).receivers.len() ==> game.next_receiver <= (
            #[trigger] game.run(turns).receivers[i]).receiver || game.has_receiver(
                game.run(turns).receivers[i].receiver,
            ),
    decreases turns.len(),
{
    if turns.len() == 0 {
        assert forall|i: int| 0 <= i < game.receivers.len() implies game.has_receiver(
            (#[trigger] game.receivers[i]).receiver,
        ) by {
        }
    } else {
        let front = turns.drop_last();
        let before = game.run(front);
        let after = game.run(turns);
        law_receiver_ids_are_never_reused(game, front);
        assert forall|i: int| 0 <= i < after.receivers.len() implies game.next_receiver <= (
        #[trigger] after.receivers[i]).receiver || game.has_receiver(
            after.receivers[i].receiver,
        ) by {
            let id = after.receivers[i].receiver;
            lemma_turn_keeps_ids(before, turns.last(), i);
            if id < before.next_receiver {
                let j = choose|j: int|
                    0 <= j < before.receivers.len() && (#[trigger] before.receivers[j]).receiver
                        == id;
                assert(before.receivers[j].receiver == id);
            }
        }
    }
}

/// Handles and receivers of others are out of reach: such a command changes
/// and announces nothing.
pub proof fn law_foreign_handles_are_untouchable(
    game: BroadcastGame,
    conn: u64,
    sender: u64,
    ch: char,
    receiver: u64,
)
    requires
        game.wf(),
    ensures
        game.owner_of(sender) != Some(conn) ==> game.step(
            BroadcastWire::Send { conn: sender, ch },
            conn,
        ) == (game, Seq::<BroadcastEvent>::empty()),
        !game.operable(receiver, conn) ==> game.step(BroadcastWire::Receive { receiver }, conn)
            == (game, Seq::<BroadcastEvent>::empty()),
        !game.operable(receiver, conn) ==> game.step(BroadcastWire::Unsubscribe { receiver }, conn)
            == (game, Seq::<BroadcastEvent>::empty()),
{
}

/// After a claim the presenter owns what the host owned, and the host's handle
/// exists.
pub proof fn law_claim_transfers_the_host(game: BroadcastGame, conn: u64)
    requires
        game.wf(),
    ensures
        ({
            let after = game.claim(conn).0;
            &&& after.presenter == Some(conn)
            &&& exists|i: int|
                0 <= i < after.senders.len() && (#[trigger] after.senders[i]).conn
                    == BROADCAST_HOST_CONN
            &&& conn != BROADCAST_HOST_CONN ==> forall|i: int|
                0 <= i < after.senders.len() ==> (#[trigger] after.senders[i]).owner
                    != BROADCAST_HOST_CONN
        }),
{
    let after = game.claim(conn).0;
    lemma_sender_found(game.senders, BROADCAST_HOST_CONN);
    if game.has_sender(BROADCAST_HOST_CONN) {
        let i = sender_index(game.senders, BROADCAST_HOST_CONN);
        assert(after.senders[i].conn == BROADCAST_HOST_CONN);
    } else {
        assert(after.senders[game.senders.len() as int].conn == BROADCAST_HOST_CONN);
    }
}

proof fn lemma_sender_found(senders: Seq<SenderInfo>, conn: u64)
    ensures
        0 <= sender_index(senders, conn) <= senders.len(),
        sender_index(senders, conn) < senders.len() ==> senders[sender_index(senders, conn)].conn
            == conn,
    decreases senders.len(),
{
    if senders.len() > 0 {
        lemma_sender_found(senders.drop_last(), conn);
    }
}

proof fn lemma_others_stay(senders: Seq<SenderInfo>, conn: u64, i: int)
    requires
        0 <= i < senders.len(),
        senders[i].owner != conn,
    ensures
        staying_senders(senders, conn).contains(senders[i]),
    decreases senders.len(),
{
    let rest = senders.drop_last();
    let stay = staying_senders(rest, conn);
    if i < rest.len() {
        lemma_others_stay(rest, conn, i);
        let k = choose|k: int| 0 <= k < stay.len() && stay[k] == senders[i];
        assert(staying_senders(senders, conn)[k] == senders[i]);
    } else {
        assert(staying_senders(senders, conn)[stay.len() as int] == senders[i]);
    }
}

proof fn lemma_nobody_leaves(senders: Seq<SenderInfo>, conn: u64)
    requires
        forall|i: int| 0 <= i < senders.len() ==> (#[trigger] senders[i]).owner != conn,
    ensures
        staying_senders(senders, conn) == senders,
        departing_senders(senders, conn) == Seq::<u64>::empty(),
    decreases senders.len(),
{
    if senders.len() > 0 {
        let rest = senders.drop_last();
        assert forall|i: int| 0 <= i < rest.len() implies (#[trigger] rest[i]).owner != conn by {
            assert(rest[i] == senders[i]);
        }
        lemma_nobody_leaves(rest, conn);
        assert(senders.last().owner != conn);
        assert(rest.push(senders.last()) =~= senders);
    }
}

/// A connection takes along what it owns and nothing else: the clones of
/// others survive, and one that owns no handle drops none.
pub proof fn law_leaving_spares_the_handles_of_others(game: BroadcastGame, conn: u64)
    ensures
        forall|i: int|
            0 <= i < game.senders.len() && (#[trigger] game.senders[i]).owner != conn
                ==> game.leave(conn).0.senders.contains(game.senders[i]),
        (forall|i: int| 0 <= i < game.senders.len() ==> (#[trigger] game.senders[i]).owner != conn)
            ==> game.leave(conn).0.senders == game.senders,
{
    assert forall|i: int|
        0 <= i < game.senders.len() && (#[trigger] game.senders[i]).owner != conn implies
        game.leave(conn).0.senders.contains(game.senders[i]) by {
        lemma_others_stay(game.senders, conn, i);
    }
    if forall|i: int| 0 <= i < game.senders.len() ==> (#[trigger] game.senders[i]).owner != conn {
        lemma_nobody_leaves(game.senders, conn);
    }
}

/// A receive hands out the next retained value, reports what was missed, waits
/// or finds the channel closed, each exactly when it is due; it moves this
/// receiver alone.
pub proof fn law_receive_moves_one_receiver(game: BroadcastGame, i: int)
    requires
        game.wf(),
        0 <= i < game.receivers.len(),
    ensures
        ({
            let before = game.receivers[i];
            let (after, said) = game.receive_at(i);
            let rx = after.receivers[i];
            let retained = if game.sent.len() > BROADCAST_CAPACITY {
                game.sent.len() - BROADCAST_CAPACITY
            } else {
                0
            };
            &&& after.receivers == game.receivers.update(i, rx)
            &&& after.sent == game.sent
            &&& after.senders == game.senders
            &&& after.presenter == game.presenter
            &&& after.next_receiver == game.next_receiver
            &&& rx.receiver == before.receiver && rx.owner == before.owner && rx.conn == before.conn
            &&& retained <= before.next - 1 < game.sent.len() ==> {
                &&& rx.last == Some(game.sent[before.next - 1])
                &&& rx.next == before.next + 1
                &&& rx.error is None
                &&& !rx.waiting
                &&& rx.lagged_total == before.lagged_total
                &&& said == seq![
                    BroadcastEvent::Received {
                        receiver: before.receiver,
                        ch: game.sent[before.next - 1].ch,
                    },
                ]
            }
            &&& before.next - 1 < retained ==> {
                &&& rx.next == retained + 1
                &&& rx.last == before.last
                &&& !rx.waiting
                &&& rx.error == Some(BroadcastError::Lagged((rx.next - before.next) as u64))
                &&& rx.lagged_total - before.lagged_total == rx.next - before.next
                &&& said == seq![
                    BroadcastEvent::Lagged {
                        receiver: before.receiver,
                        n: (rx.next - before.next) as u64,
                    },
                ]
            }
            &&& before.next - 1 == game.sent.len() ==> {
                &&& rx.next == before.next
                &&& rx.last == before.last
                &&& rx.lagged_total == before.lagged_total
                &&& rx.waiting == (game.senders.len() > 0)
                &&& game.senders.len() == 0 ==> rx.error == Some(BroadcastError::Closed)
                &&& game.senders.len() > 0 ==> rx.error == before.error
                &&& said.len() == 0
            }
        }),
{
    let (after, said) = game.receive_at(i);
    assert(after.receivers =~= game.receivers.update(i, after.receivers[i]));
}

/// A send into the ring says where it flies from, names the value that a full
/// ring loses, and hands its value to everyone who waits, in order; without
/// receivers it is refused and leaves nothing behind.
pub proof fn law_send_is_announced(game: BroadcastGame, conn: u64, ch: char)
    requires
        game.wf(),
    ensures
        ({
            let (after, said) = game.send(conn, ch);
            let full = game.sent.len() >= BROADCAST_CAPACITY;
            let skip: int = if full {
                2
            } else {
                1
            };
            &&& game.receivers.len() == 0 ==> after == game && said == seq![
                BroadcastEvent::SendRefused,
            ]
            &&& game.receivers.len() > 0 ==> {
                &&& after.sent.len() == game.sent.len() + 1
                &&& after.sent.last() == (BufferChar { ch, conn })
                &&& after.sent.drop_last() == game.sent
                &&& after.senders == game.senders
                &&& after.presenter == game.presenter
                &&& after.receivers.len() == game.receivers.len()
                &&& said.len() >= skip
                &&& said[0] == (BroadcastEvent::InFlight { conn, ch })
                &&& full ==> said[1] == (BroadcastEvent::Evicted { ch: game.ring()[0].ch })
                &&& forall|k: int|
                    skip <= k < said.len() ==> #[trigger] said[k] is Received && said[k]->Received_ch
                        == ch
                &&& forall|i: int|
                    0 <= i < game.receivers.len() && (#[trigger] game.receivers[i]).waiting
                        ==> said.contains(
                        BroadcastEvent::Received { receiver: game.receivers[i].receiver, ch },
                    )
            }
        }),
{
    if game.receivers.len() > 0 {
        let (after, said) = game.send(conn, ch);
        let served = served_events(game.receivers, ch);
        let skip: int = said.len() - served.len();
        assert(after.sent.drop_last() =~= game.sent);
        assert forall|k: int| skip <= k < said.len() implies #[trigger] said[k] is Received
            && said[k]->Received_ch == ch by {
            lemma_served_events(game.receivers, ch, k - skip);
            assert(said[k] == served[k - skip]);
        }
        assert forall|i: int|
            0 <= i < game.receivers.len() && (#[trigger] game.receivers[i]).waiting implies
            said.contains(
            BroadcastEvent::Received { receiver: game.receivers[i].receiver, ch },
        ) by {
            lemma_waiting_is_served(game.receivers, ch, i);
            let event = BroadcastEvent::Received { receiver: game.receivers[i].receiver, ch };
            let k = choose|k: int| 0 <= k < served.len() && served[k] == event;
            assert(said[skip + k] == event);
        }
    }
}

proof fn lemma_served_events(receivers: Seq<RxState>, ch: char, k: int)
    requires
        0 <= k < served_events(receivers, ch).len(),
    ensures
        served_events(receivers, ch)[k] is Received,
        served_events(receivers, ch)[k]->Received_ch == ch,
    decreases receivers.len(),
{
    if receivers.len() > 0 {
        let rest = served_events(receivers.drop_last(), ch);
        if k < rest.len() {
            lemma_served_events(receivers.drop_last(), ch, k);
        }
    }
}

proof fn lemma_waiting_is_served(receivers: Seq<RxState>, ch: char, i: int)
    requires
        0 <= i < receivers.len(),
        receivers[i].waiting,
    ensures
        served_events(receivers, ch).contains(
            BroadcastEvent::Received { receiver: receivers[i].receiver, ch },
        ),
    decreases receivers.len(),
{
    let rest = receivers.drop_last();
    let before = served_events(rest, ch);
    let all = served_events(receivers, ch);
    let event = BroadcastEvent::Received { receiver: receivers[i].receiver, ch };
    if i < rest.len() {
        lemma_waiting_is_served(rest, ch, i);
        let k = choose|k: int| 0 <= k < before.len() && before[k] == event;
        assert(all[k] == event);
    } else {
        assert(all[before.len() as int] == event);
    }
}

/// A clone of a live handle is a new handle of the cloner's, under a fresh id,
/// and moves nothing else; of a handle that is gone there is none.
pub proof fn law_clone_is_the_cloners(game: BroadcastGame, source: u64, owner: u64)
    requires
        game.wf(),
        game.has_room(),
    ensures
        ({
            let (after, said) = game.step(BroadcastWire::CloneSender { source }, owner);
            let live = exists|i: int|
                0 <= i < game.senders.len() && (#[trigger] game.senders[i]).conn == source;
            &&& live ==> {
                &&& after.senders.drop_last() == game.senders
                &&& after.senders.last().conn == game.next_sender
                &&& after.senders.last().owner == owner
                &&& !after.senders.last().blocked
                &&& after.next_sender == game.next_sender + 1
                &&& said == seq![BroadcastEvent::SenderJoined { conn: game.next_sender, owner }]
            }
            &&& !live ==> after == game && said.len() == 0
            &&& after.receivers == game.receivers
            &&& after.sent == game.sent
            &&& after.presenter == game.presenter
        }),
{
    lemma_sender_is_there(game.senders, source);
    let after = game.step(BroadcastWire::CloneSender { source }, owner).0;
    if game.has_sender(source) {
        assert(after.senders.drop_last() =~= game.senders);
    }
}

proof fn lemma_sender_is_there(senders: Seq<SenderInfo>, conn: u64)
    ensures
        0 <= sender_index(senders, conn) <= senders.len(),
        sender_index(senders, conn) < senders.len() <==> exists|i: int|
            0 <= i < senders.len() && (#[trigger] senders[i]).conn == conn,
        sender_index(senders, conn) < senders.len() ==> senders[sender_index(
            senders,
            conn,
        )].conn == conn,
    decreases senders.len(),
{
    if senders.len() > 0 {
        let rest = senders.drop_last();
        lemma_sender_is_there(rest, conn);
        assert(forall|i: int| 0 <= i < rest.len() ==> rest[i] == senders[i]);
        if sender_index(senders, conn) < senders.len() {
            assert(senders[sender_index(senders, conn)].conn == conn);
        }
        if exists|i: int| 0 <= i < senders.len() && (#[trigger] senders[i]).conn == conn {
            let i = choose|i: int| 0 <= i < senders.len() && (#[trigger] senders[i]).conn == conn;
            if i < rest.len() {
                assert(rest[i].conn == conn);
            }
        }
    }
}

/// Unsubscribing takes the owner's receiver off the list and says so; the
/// others, what was sent and who sends stay.
pub proof fn law_unsubscribing_removes_the_receiver(game: BroadcastGame, i: int)
    requires
        game.wf(),
        0 <= i < game.receivers.len(),
    ensures
        ({
            let rx = game.receivers[i];
            let (after, said) = game.step(
                BroadcastWire::Unsubscribe { receiver: rx.receiver },
                rx.owner,
            );
            &&& after == (BroadcastGame { receivers: game.receivers.remove(i), ..game })
            &&& said == seq![BroadcastEvent::ReceiverRemoved { receiver: rx.receiver }]
            &&& game.step(BroadcastWire::Receive { receiver: rx.receiver }, rx.owner)
                == game.receive_at(i)
        }),
{
    let rx = game.receivers[i];
    lemma_receiver_found(game.receivers, rx.receiver, i);
    let k = receiver_index(game.receivers, rx.receiver);
    if k != i {
        assert(game.receivers[k].receiver == game.receivers[i].receiver);
    }
}

proof fn lemma_receiver_found(receivers: Seq<RxState>, id: u64, i: int)
    requires
        0 <= i < receivers.len(),
        receivers[i].receiver == id,
    ensures
        0 <= receiver_index(receivers, id) <= i,
        receivers[receiver_index(receivers, id)].receiver == id,
    decreases receivers.len(),
{
    let rest = receivers.drop_last();
    if i < rest.len() {
        lemma_receiver_found(rest, id, i);
    } else {
        lemma_receiver_prefix(receivers, id, rest.len() as int);
        assert(receivers.take(rest.len() as int) =~= rest);
        if receiver_index(rest, id) < rest.len() {
            lemma_receiver_sound(rest, id);
        }
    }
}

proof fn lemma_receiver_sound(receivers: Seq<RxState>, id: u64)
    ensures
        0 <= receiver_index(receivers, id) <= receivers.len(),
        receiver_index(receivers, id) < receivers.len() ==> receivers[receiver_index(
            receivers,
            id,
        )].receiver == id,
    decreases receivers.len(),
{
    if receivers.len() > 0 {
        lemma_receiver_sound(receivers.drop_last(), id);
    }
}

/// Whoever owns a handle sends from it: the value goes out under the handle's
/// id.
pub proof fn law_owners_send_from_their_handles(game: BroadcastGame, i: int, ch: char)
    requires
        game.wf(),
        0 <= i < game.senders.len(),
    ensures
        game.step(
            BroadcastWire::Send { conn: game.senders[i].conn, ch },
            game.senders[i].owner,
        ) == game.send(game.senders[i].conn, ch),
{
    lemma_sender_is_there(game.senders, game.senders[i].conn);
    let k = sender_index(game.senders, game.senders[i].conn);
    if k != i {
        assert(game.senders[k].conn != game.senders[i].conn || k >= game.senders.len());
    }
}

/// A claim takes the slot, and with it the handles that the host owned; it
/// leaves everyone else's handles, the receivers and what was sent alone, and
/// announces a host handle only if it had to be made.
pub proof fn law_claim_moves_only_the_hosts_handles(game: BroadcastGame, conn: u64, i: int)
    requires
        game.wf(),
        0 <= i < game.senders.len(),
    ensures
        ({
            let (after, said) = game.step(BroadcastWire::ClaimPresenter, conn);
            let seeded = !(exists|k: int|
                0 <= k < game.senders.len() && (#[trigger] game.senders[k]).conn
                    == BROADCAST_HOST_CONN);
            &&& after.presenter == Some(conn)
            &&& after.receivers == game.receivers
            &&& after.sent == game.sent
            &&& after.next_sender == game.next_sender
            &&& after.senders.len() == game.senders.len() + (if seeded {
                1int
            } else {
                0int
            })
            &&& after.senders[i].conn == game.senders[i].conn
            &&& after.senders[i].owner == if game.senders[i].owner == BROADCAST_HOST_CONN {
                conn
            } else {
                game.senders[i].owner
            }
            &&& after.senders[i].blocked == game.senders[i].blocked
            &&& seeded ==> after.senders.last() == (SenderInfo {
                conn: BROADCAST_HOST_CONN,
                owner: conn,
                blocked: false,
            }) && said == seq![
                BroadcastEvent::SenderJoined { conn: BROADCAST_HOST_CONN, owner: conn },
            ]
            &&& !seeded ==> said.len() == 0
        }),
{
    lemma_sender_is_there(game.senders, BROADCAST_HOST_CONN);
}

/// A connection that leaves gives up what it owned, the slot included, and
/// nothing else.
pub proof fn law_leaving_gives_up_what_was_owned(game: BroadcastGame, conn: u64)
    ensures
        ({
            let after = game.leave(conn).0;
            &&& after.senders == game.senders.filter(|sender: SenderInfo| sender.owner != conn)
            &&& after.receivers == game.receivers.filter(|rx: RxState| rx.owner != conn)
            &&& after.presenter == if game.presenter == Some(conn) {
                None
            } else {
                game.presenter
            }
            &&& after.sent == game.sent
            &&& after.next_sender == game.next_sender
            &&& after.next_receiver == game.next_receiver
            &&& game.leave(conn).1.len() == (game.senders.len() - after.senders.len()) + (
            game.receivers.len() - after.receivers.len())
        }),
{
    lemma_stayers_are_a_filter(game.senders, game.receivers, conn);
}

proof fn lemma_stayers_are_a_filter(senders: Seq<SenderInfo>, receivers: Seq<RxState>, conn: u64)
    ensures
        staying_senders(senders, conn) == senders.filter(
            |sender: SenderInfo| sender.owner != conn,
        ),
        staying_receivers(receivers, conn) == receivers.filter(|rx: RxState| rx.owner != conn),
        departing_senders(senders, conn).len() + staying_senders(senders, conn).len()
            == senders.len(),
        receivers_of(receivers, conn).len() + staying_receivers(receivers, conn).len()
            == receivers.len(),
    decreases senders.len() + receivers.len(),
{
    reveal(Seq::filter);
    if senders.len() > 0 {
        lemma_stayers_are_a_filter(senders.drop_last(), receivers, conn);
    }
    if receivers.len() > 0 {
        lemma_stayers_are_a_filter(senders, receivers.drop_last(), conn);
    }
}

/// What clients see of a game: the newest values that fit, oldest first, how
/// many were ever sent, the handles, the receivers and the presenter.
pub proof fn law_snapshot_shows_the_game(game: BroadcastGame, shown: BroadcastSnapshot, i: int)
    requires
        game.shown_by(shown),
        0 <= i < shown.buffer@.len(),
    ensures
        shown.tail == game.sent.len(),
        shown.buffer@.len() == if game.sent.len() < BROADCAST_CAPACITY {
            game.sent.len()
        } else {
            BROADCAST_CAPACITY as nat
        },
        shown.buffer@[i] == game.sent[game.sent.len() - shown.buffer@.len() + i],
        shown.senders@ == game.senders,
        shown.receivers@ == game.receivers,
        shown.presenter == game.presenter,
{
}

/// A fresh game has the host's handle, owned by the host, and nothing else.
pub proof fn law_fresh_game_has_the_host(shown: BroadcastSnapshot)
    requires
        BroadcastGame::fresh().shown_by(shown),
    ensures
        shown.senders@.len() == 1,
        shown.senders@[0].conn == BROADCAST_HOST_CONN,
        shown.senders@[0].owner == BROADCAST_HOST_CONN,
        shown.receivers@.len() == 0,
        shown.buffer@.len() == 0,
        shown.tail == 0,
        shown.presenter is None,
{
}

/// A send completes the receives that wait for it: each of them has the value,
/// is one further, and has nothing to complain of. Nobody else is touched.
pub proof fn law_send_serves_who_waits(game: BroadcastGame, conn: u64, ch: char, i: int)
    requires
        game.wf(),
        game.sent.len() + 2 <= u64::MAX,
        0 <= i < game.receivers.len(),
    ensures
        ({
            let before = game.receivers[i];
            let after = game.send(conn, ch).0.receivers[i];
            &&& !before.waiting ==> after == before
            &&& before.waiting ==> {
                &&& after.last == Some(BufferChar { ch, conn })
                &&& after.next == before.next + 1
                &&& after.error is None
                &&& !after.waiting
            }
            &&& after.receiver == before.receiver
            &&& after.conn == before.conn
            &&& after.owner == before.owner
            &&& after.lagged_total == before.lagged_total
        }),
{
}

/// A receiver starts at the tail with nothing received and nothing missed, under
/// an id that none had, and it is announced; whoever has one gets no other.
pub proof fn law_subscriber_starts_at_the_tail(game: BroadcastGame, conn: u64)
    requires
        game.wf(),
        game.next_receiver < u64::MAX,
    ensures
        ({
            let (after, said) = game.subscribe(conn);
            &&& game.subscribed(conn) ==> after == game && said.len() == 0
            &&& !game.subscribed(conn) ==> {
                let rx = after.receivers.last();
                &&& after.receivers.len() == game.receivers.len() + 1
                &&& after.receivers.drop_last() == game.receivers
                &&& rx.receiver == game.next_receiver
                &&& rx.owner == conn && rx.conn == conn
                &&& rx.next == game.sent.len() + 1
                &&& rx.lagged_total == 0
                &&& rx.last is None && rx.error is None && !rx.waiting
                &&& after.next_receiver == game.next_receiver + 1
                &&& after.sent == game.sent
                &&& after.senders == game.senders
                &&& after.presenter == game.presenter
                &&& said == seq![
                    BroadcastEvent::ReceiverAdded { receiver: rx.receiver, owner: conn },
                ]
            }
        }),
{
    let after = game.subscribe(conn).0;
    if !game.subscribed(conn) {
        assert(after.receivers.drop_last() =~= game.receivers);
    }
}

} // verus!

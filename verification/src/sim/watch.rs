//! The watch game: one shared cell, one fixed sender (the presenter), many
//! receivers.
//!
//! There is no buffer and no clock: the value moves atomically at send time.
//!
//! * A receiver's `borrow()` holds a read guard; a send issued while any
//!   receiver is borrowing is queued and commits once the last guard drops.
//! * A `changed()` that is already stale resolves instantly; otherwise it
//!   waits for the next accepted send.
//! * Sending a value equal to the current one changes nothing (dedup).
//! * Sending with zero receivers fails.

use vstd::prelude::*;

use crate::protocol::{RxInfo, WatchEvent, WatchSnapshot, WatchWire};

verus! {

/// The game as a mathematical value.
#[verifier::ext_equal]
pub struct WatchGame {
    pub created: bool,
    pub value: Option<char>,
    pub version: u64,
    pub pending_send: Option<char>,
    pub presenter: Option<u64>,
    /// The id that the next receiver will get.
    pub next_rx: u64,
    pub receivers: Seq<RxInfo>,
}

/// Position of the receiver `id`; the number of receivers if there is none.
pub open spec fn index_of(receivers: Seq<RxInfo>, id: u64) -> int
    decreases receivers.len(),
{
    if receivers.len() == 0 {
        0
    } else {
        let before = index_of(receivers.drop_last(), id);
        if before < receivers.len() - 1 || receivers.last().id == id {
            before
        } else {
            receivers.len() as int
        }
    }
}

/// Whether some receiver holds a read guard.
pub open spec fn any_borrowing(receivers: Seq<RxInfo>) -> bool {
    exists|i: int| 0 <= i < receivers.len() && (#[trigger] receivers[i]).borrowing
}

/// The ids of the receivers that `conn` owns, in the order of creation.
pub open spec fn ids_owned_by(receivers: Seq<RxInfo>, conn: u64) -> Seq<u64>
    decreases receivers.len(),
{
    if receivers.len() == 0 {
        Seq::empty()
    } else {
        let before = ids_owned_by(receivers.drop_last(), conn);
        if receivers.last().owner == conn {
            before.push(receivers.last().id)
        } else {
            before
        }
    }
}

/// A receiver after the value moved on to `version`: one that waited in
/// `changed()` has woken and seen it.
pub open spec fn woken(rx: RxInfo, version: u64) -> RxInfo {
    if rx.awaiting {
        RxInfo { awaiting: false, version, ..rx }
    } else {
        rx
    }
}

impl WatchGame {
    /// A game without a channel and without a presenter.
    pub open spec fn fresh() -> Self {
        WatchGame {
            created: false,
            value: None,
            version: 0,
            pending_send: None,
            presenter: None,
            next_rx: 1,
            receivers: Seq::empty(),
        }
    }

    /// What every command keeps: receivers are listed in the order of their
    /// ids, which are never reused, none has seen more than there is, one that
    /// waits in `changed()` is up to date, a send is only pending behind a
    /// guard, and nothing exists before the channel was created.
    pub open spec fn wf(self) -> bool {
        &&& 1 <= self.next_rx
        &&& forall|i: int| 0 <= i < self.receivers.len()
            ==> (#[trigger] self.receivers[i]).id < self.next_rx
        &&& forall|i: int, j: int|
            #![trigger self.receivers[i], self.receivers[j]]
            0 <= i < j < self.receivers.len() ==> self.receivers[i].id < self.receivers[j].id
        &&& forall|i: int| 0 <= i < self.receivers.len()
            ==> (#[trigger] self.receivers[i]).version <= self.version
        &&& forall|i: int| 0 <= i < self.receivers.len()
            ==> (#[trigger] self.receivers[i]).awaiting ==> self.receivers[i].version
            == self.version
        &&& self.pending_send is Some ==> any_borrowing(self.receivers)
        &&& !self.created ==> {
            &&& self.value is None
            &&& self.version == 0
            &&& self.receivers.len() == 0
        }
    }

    /// Whether another command fits into the counters.
    pub open spec fn has_room(self) -> bool {
        self.version < u64::MAX && self.next_rx < u64::MAX
    }

    /// Whether `snapshot` shows this state, field by field.
    pub open spec fn shown_by(self, snapshot: WatchSnapshot) -> bool {
        &&& snapshot.created == self.created
        &&& snapshot.value == self.value
        &&& snapshot.version == self.version
        &&& snapshot.pending_send == self.pending_send
        &&& snapshot.presenter == self.presenter
        &&& snapshot.receivers@ == self.receivers
    }

    /// Whether `rx` names a receiver that `conn` may operate.
    pub open spec fn operable(self, rx: u64, conn: u64) -> bool {
        let i = index_of(self.receivers, rx);
        i < self.receivers.len() && self.receivers[i].owner == conn
    }

    /// The state with another receiver in `rx`'s place.
    pub open spec fn with_rx(self, rx: u64, info: RxInfo) -> Self {
        WatchGame {
            receivers: self.receivers.update(index_of(self.receivers, rx), info),
            ..self
        }
    }

    /// The value was replaced; a value equal to the current one changes
    /// nothing.
    pub open spec fn commit(self, ch: char) -> (Self, Seq<WatchEvent>) {
        if self.value == Some(ch) {
            (self, seq![WatchEvent::SameValue])
        } else {
            let version = (self.version + 1) as u64;
            (
                WatchGame {
                    version,
                    value: Some(ch),
                    receivers: self.receivers.map_values(|rx: RxInfo| woken(rx, version)),
                    ..self
                },
                seq![WatchEvent::Changed { version, ch }],
            )
        }
    }

    /// A send blocked by guards resolves once the last of them is gone: it
    /// fails if no receiver is left, and commits otherwise.
    pub open spec fn resolve_pending(self) -> (Self, Seq<WatchEvent>) {
        match self.pending_send {
            Some(ch) if !any_borrowing(self.receivers) => {
                let clear = WatchGame { pending_send: None, ..self };
                if self.receivers.len() == 0 {
                    (clear, seq![WatchEvent::SendRefused])
                } else {
                    clear.commit(ch)
                }
            },
            _ => (self, seq![]),
        }
    }

    /// A receiver owned by `owner` appeared, having seen `version`.
    pub open spec fn with_receiver(self, owner: u64, version: u64) -> (Self, Seq<WatchEvent>) {
        (
            WatchGame {
                next_rx: (self.next_rx + 1) as u64,
                receivers: self.receivers.push(
                    RxInfo {
                        id: self.next_rx,
                        owner,
                        version,
                        awaiting: false,
                        borrowing: false,
                    },
                ),
                ..self
            },
            seq![WatchEvent::ReceiverAdded { id: self.next_rx, owner }],
        )
    }

    /// The presenter sends `ch`.
    pub open spec fn send(self, ch: char) -> (Self, Seq<WatchEvent>) {
        if self.pending_send is Some {
            (self, seq![])
        } else if self.receivers.len() == 0 {
            (self, seq![WatchEvent::SendRefused])
        } else if any_borrowing(self.receivers) {
            (WatchGame { pending_send: Some(ch), ..self }, seq![WatchEvent::SendBlocked])
        } else {
            self.commit(ch)
        }
    }

    /// The owner of `rx` toggles `changed()`: an outstanding one is cancelled,
    /// a stale one completes at once, any other waits.
    pub open spec fn await_change(self, rx: u64) -> (Self, Seq<WatchEvent>) {
        let info = self.receivers[index_of(self.receivers, rx)];
        if info.awaiting {
            (self.with_rx(rx, RxInfo { awaiting: false, ..info }), seq![])
        } else if info.version < self.version {
            (
                self.with_rx(rx, RxInfo { version: self.version, ..info }),
                seq![WatchEvent::ChangedImmediately { rx }],
            )
        } else {
            (self.with_rx(rx, RxInfo { awaiting: true, ..info }), seq![])
        }
    }

    /// The owner of `rx` toggles `borrow()`. Dropping the last guard lets a
    /// pending send resolve.
    pub open spec fn look_inside(self, rx: u64) -> (Self, Seq<WatchEvent>) {
        let info = self.receivers[index_of(self.receivers, rx)];
        if info.borrowing {
            self.with_rx(rx, RxInfo { borrowing: false, ..info }).resolve_pending()
        } else {
            (
                self.with_rx(rx, RxInfo { borrowing: true, ..info }),
                seq![WatchEvent::BorrowFlight { rx }],
            )
        }
    }

    /// The owner of `rx` drops it, and its guard with it.
    pub open spec fn drop_rx(self, rx: u64) -> (Self, Seq<WatchEvent>) {
        let i = index_of(self.receivers, rx);
        let left = WatchGame { receivers: self.receivers.remove(i), ..self };
        let removed = seq![WatchEvent::ReceiverRemoved { id: rx }];
        if self.receivers[i].borrowing {
            let (after, events) = left.resolve_pending();
            (after, removed + events)
        } else {
            (left, removed)
        }
    }

    /// What a command from `conn` does, and what it announces. Commands that
    /// `conn` may not give, or that name nothing, are ignored.
    pub open spec fn step(self, wire: WatchWire, conn: u64) -> (Self, Seq<WatchEvent>) {
        match wire {
            WatchWire::Create { init } if !self.created && self.presenter == Some(conn) => (
                WatchGame { created: true, value: init, version: 0, ..self },
                seq![WatchEvent::Created],
            ),
            WatchWire::Send { ch } if self.created && self.presenter == Some(conn) => self.send(ch),
            WatchWire::NewReceiver if self.created => self.with_receiver(conn, self.version),
            WatchWire::CloneReceiver { rx } if self.created && index_of(self.receivers, rx)
                < self.receivers.len() => self.with_receiver(
                conn,
                self.receivers[index_of(self.receivers, rx)].version,
            ),
            WatchWire::AwaitChange { rx } if self.operable(rx, conn) => self.await_change(rx),
            WatchWire::LookInside { rx } if self.operable(rx, conn) => self.look_inside(rx),
            WatchWire::DropReceiver { rx } if self.operable(rx, conn) => self.drop_rx(rx),
            _ => (self, seq![]),
        }
    }
}

/// The state machine of the watch game.
pub struct WatchSim {
    created: bool,
    value: Option<char>,
    version: u64,
    pending_send: Option<char>,
    presenter: Option<u64>,
    next_rx: u64,
    receivers: Vec<RxInfo>,
}

impl View for WatchSim {
    type V = WatchGame;

    closed spec fn view(&self) -> WatchGame {
        WatchGame {
            created: self.created,
            value: self.value,
            version: self.version,
            pending_send: self.pending_send,
            presenter: self.presenter,
            next_rx: self.next_rx,
            receivers: self.receivers@,
        }
    }
}

impl Default for WatchSim {
    fn default() -> (sim: Self)
        ensures
            sim.wf(),
            sim@ == WatchGame::fresh(),
    {
        Self::new()
    }
}

impl WatchSim {
    /// The invariant that every command keeps.
    pub open spec fn wf(&self) -> bool {
        self@.wf()
    }

    /// A game without a channel and without a presenter.
    pub fn new() -> (sim: Self)
        ensures
            sim.wf(),
            sim@ == WatchGame::fresh(),
    {
        WatchSim {
            created: false,
            value: None,
            version: 0,
            pending_send: None,
            presenter: None,
            next_rx: 1,
            receivers: Vec::new(),
        }
    }

    /// Give the presenter slot to `conn`, or to nobody.
    pub fn set_presenter(&mut self, conn: Option<u64>)
        requires
            old(self).wf(),
        ensures
            final(self).wf(),
            final(self)@ == (WatchGame { presenter: conn, ..old(self)@ }),
    {
        self.presenter = conn;
    }

    /// Who holds the presenter slot.
    pub fn presenter(&self) -> (presenter: Option<u64>)
        ensures
            presenter == self@.presenter,
    {
        self.presenter
    }

    /// Whether another command fits into the counters.
    pub fn has_room(&self) -> (room: bool)
        ensures
            room == self@.has_room(),
    {
        self.version < u64::MAX && self.next_rx < u64::MAX
    }

    /// Whether the channel was created.
    pub fn has_channel(&self) -> (created: bool)
        ensures
            created == self@.created,
    {
        self.created
    }

    /// The connection that owns the receiver `rx`.
    pub fn owner_of(&self, rx: u64) -> (owner: Option<u64>)
        ensures
            owner == {
                let i = index_of(self@.receivers, rx);
                if i < self@.receivers.len() {
                    Some(self@.receivers[i].owner)
                } else {
                    None
                }
            },
    {
        match self.find(rx) {
            Some(i) => Some(self.receivers[i].owner),
            None => None,
        }
    }

    /// The receivers that `conn` owns.
    pub fn owned_by(&self, conn: u64) -> (ids: Vec<u64>)
        ensures
            ids@ == ids_owned_by(self@.receivers, conn),
    {
        let mut ids: Vec<u64> = Vec::new();
        let mut i: usize = 0;
        assert(self.receivers@.take(0) =~= Seq::empty());
        while i < self.receivers.len()
            invariant
                i <= self.receivers.len(),
                ids@ == ids_owned_by(self.receivers@.take(i as int), conn),
            decreases self.receivers.len() - i,
        {
            assert(self.receivers@.take(i + 1).drop_last() =~= self.receivers@.take(i as int));
            if self.receivers[i].owner == conn {
                ids.push(self.receivers[i].id);
            }
            i = i + 1;
        }
        assert(self.receivers@.take(i as int) =~= self.receivers@);
        ids
    }

    fn find(&self, rx: u64) -> (found: Option<usize>)
        ensures
            match found {
                Some(i) => {
                    &&& i < self@.receivers.len()
                    &&& i == index_of(self@.receivers, rx)
                    &&& self@.receivers[i as int].id == rx
                },
                None => index_of(self@.receivers, rx) == self@.receivers.len(),
            },
    {
        let mut i: usize = 0;
        assert(self.receivers@.take(0) =~= Seq::empty());
        while i < self.receivers.len()
            invariant
                i <= self.receivers.len(),
                index_of(self.receivers@.take(i as int), rx) == i,
            decreases self.receivers.len() - i,
        {
            proof {
                assert(self.receivers@.take(i + 1).drop_last() =~= self.receivers@.take(i as int));
                lemma_index_prefix(self.receivers@, rx, i + 1);
            }
            if self.receivers[i].id == rx {
                return Some(i);
            }
            i = i + 1;
        }
        assert(self.receivers@.take(i as int) =~= self.receivers@);
        None
    }

    /// Position of `rx`, if `conn` may operate it.
    fn find_operable(&self, rx: u64, conn: u64) -> (found: Option<usize>)
        ensures
            match found {
                Some(i) => {
                    &&& self@.operable(rx, conn)
                    &&& i < self@.receivers.len()
                    &&& i == index_of(self@.receivers, rx)
                    &&& self@.receivers[i as int].id == rx
                },
                None => !self@.operable(rx, conn),
            },
    {
        match self.find(rx) {
            Some(i) => if self.receivers[i].owner == conn {
                Some(i)
            } else {
                None
            },
            None => None,
        }
    }

    fn any_borrowing(&self) -> (any: bool)
        ensures
            any == any_borrowing(self@.receivers),
    {
        let mut i: usize = 0;
        while i < self.receivers.len()
            invariant
                i <= self.receivers.len(),
                forall|k: int| 0 <= k < i ==> !(#[trigger] self.receivers@[k]).borrowing,
            decreases self.receivers.len() - i,
        {
            if self.receivers[i].borrowing {
                assert(self@.receivers[i as int].borrowing);
                return true;
            }
            i = i + 1;
        }
        false
    }

    fn commit_send(&mut self, ch: char) -> (event: WatchEvent)
        requires
            old(self).wf(),
            old(self)@.created,
            old(self)@.pending_send is None,
            old(self)@.version < u64::MAX,
        ensures
            final(self).wf(),
            (final(self)@, seq![event]) == old(self)@.commit(ch),
    {
        match self.value {
            Some(current) => if current == ch {
                return WatchEvent::SameValue;
            },
            None => {},
        }
        let version: u64 = self.version + 1;
        self.version = version;
        self.value = Some(ch);
        let mut i: usize = 0;
        while i < self.receivers.len()
            invariant
                i <= self.receivers.len(),
                version == old(self)@.version + 1,
                self@ == (WatchGame {
                    version,
                    value: Some(ch),
                    receivers: self.receivers@,
                    ..old(self)@
                }),
                self.receivers.len() == old(self)@.receivers.len(),
                forall|k: int| 0 <= k < i ==> #[trigger] self.receivers@[k] == woken(
                    old(self)@.receivers[k],
                    version,
                ),
                forall|k: int| i <= k < self.receivers.len() ==> #[trigger] self.receivers@[k]
                    == old(self)@.receivers[k],
            decreases self.receivers.len() - i,
        {
            let rx = self.receivers[i];
            if rx.awaiting {
                self.receivers.set(
                    i,
                    RxInfo {
                        id: rx.id,
                        owner: rx.owner,
                        version,
                        awaiting: false,
                        borrowing: rx.borrowing,
                    },
                );
            }
            i = i + 1;
        }
        assert(self@ =~= old(self)@.commit(ch).0);
        WatchEvent::Changed { version, ch }
    }

    /// A send blocked by borrows resolves once the last read guard drops:
    /// re-check the receiver count, then commit (or dedup).
    fn resolve_pending_if_clear(&mut self) -> (events: Vec<WatchEvent>)
        requires
            (WatchGame { pending_send: None, ..old(self)@ }).wf(),
            old(self)@.created,
            old(self)@.version < u64::MAX,
        ensures
            final(self).wf(),
            (final(self)@, events@) == old(self)@.resolve_pending(),
    {
        let mut events: Vec<WatchEvent> = Vec::new();
        let ghost clear = WatchGame { pending_send: None, ..self@ };
        if !self.any_borrowing() {
            match self.pending_send {
                Some(ch) => {
                    self.pending_send = None;
                    assert(self@ == clear);
                    if self.receivers.len() == 0 {
                        events.push(WatchEvent::SendRefused);
                    } else {
                        let event = self.commit_send(ch);
                        events.push(event);
                    }
                },
                None => {
                    assert(self@ == clear);
                },
            }
        } else {
            assert(clear.receivers == self@.receivers);
            assert(clear.wf());
        }
        assert(events@ =~= old(self)@.resolve_pending().1);
        events
    }

    fn push_receiver(&mut self, owner: u64, version: u64) -> (event: WatchEvent)
        requires
            old(self).wf(),
            old(self)@.created,
            version <= old(self)@.version,
            old(self)@.next_rx < u64::MAX,
        ensures
            final(self).wf(),
            (final(self)@, seq![event]) == old(self)@.with_receiver(owner, version),
    {
        let id: u64 = self.next_rx;
        self.next_rx = self.next_rx + 1;
        self.receivers.push(RxInfo { id, owner, version, awaiting: false, borrowing: false });
        proof {
            lemma_borrowing_push(old(self)@.receivers, self.receivers@.last());
        }
        WatchEvent::ReceiverAdded { id, owner }
    }

    /// Carry out a command from `conn` and announce what happened.
    pub fn handle(&mut self, wire: &WatchWire, conn: u64) -> (events: Vec<WatchEvent>)
        requires
            old(self).wf(),
            old(self)@.has_room(),
        ensures
            final(self).wf(),
            (final(self)@, events@) == old(self)@.step(*wire, conn),
    {
        let mut events: Vec<WatchEvent> = Vec::new();
        let presenting = match self.presenter {
            Some(presenter) => presenter == conn,
            None => false,
        };
        match wire {
            WatchWire::Create { init } => {
                if !self.created && presenting {
                    self.created = true;
                    self.value = *init;
                    self.version = 0;
                    events.push(WatchEvent::Created);
                }
            },
            WatchWire::Send { ch } => {
                if self.created && presenting && self.pending_send.is_none() {
                    if self.receivers.len() == 0 {
                        events.push(WatchEvent::SendRefused);
                    } else if self.any_borrowing() {
                        self.pending_send = Some(*ch);
                        events.push(WatchEvent::SendBlocked);
                    } else {
                        let event = self.commit_send(*ch);
                        events.push(event);
                    }
                }
            },
            WatchWire::NewReceiver => {
                if self.created {
                    let version: u64 = self.version;
                    let event = self.push_receiver(conn, version);
                    events.push(event);
                }
            },
            WatchWire::CloneReceiver { rx } => {
                if self.created {
                    match self.find(*rx) {
                        Some(i) => {
                            let version: u64 = self.receivers[i].version;
                            let event = self.push_receiver(conn, version);
                            events.push(event);
                        },
                        None => {},
                    }
                }
            },
            WatchWire::AwaitChange { rx } => {
                match self.find_operable(*rx, conn) {
                    Some(i) => {
                        let info = self.receivers[i];
                        if info.awaiting {
                            self.set_rx(i, info.version, false, info.borrowing);
                        } else if info.version < self.version {
                            let version: u64 = self.version;
                            self.set_rx(i, version, false, info.borrowing);
                            events.push(WatchEvent::ChangedImmediately { rx: *rx });
                        } else {
                            self.set_rx(i, info.version, true, info.borrowing);
                        }
                        proof {
                            lemma_borrowing_same(old(self)@.receivers, self@.receivers);
                        }
                    },
                    None => {},
                }
            },
            WatchWire::LookInside { rx } => {
                match self.find_operable(*rx, conn) {
                    Some(i) => {
                        let info = self.receivers[i];
                        if info.borrowing {
                            self.set_rx(i, info.version, info.awaiting, false);
                            events = self.resolve_pending_if_clear();
                        } else {
                            self.set_rx(i, info.version, info.awaiting, true);
                            assert(self@.receivers[i as int].borrowing);
                            events.push(WatchEvent::BorrowFlight { rx: *rx });
                        }
                    },
                    None => {},
                }
            },
            WatchWire::DropReceiver { rx } => {
                match self.find_operable(*rx, conn) {
                    Some(i) => {
                        let was_borrowing = self.receivers[i].borrowing;
                        self.receivers.remove(i);
                        events.push(WatchEvent::ReceiverRemoved { id: *rx });
                        if was_borrowing {
                            let mut resolved = self.resolve_pending_if_clear();
                            events.append(&mut resolved);
                        } else {
                            proof {
                                lemma_borrowing_remove(old(self)@.receivers, i as int);
                            }
                        }
                    },
                    None => {},
                }
            },
            // the presenter slot is the actor's to grant
            WatchWire::ClaimPresenter => {},
        }
        proof {
            let expected = old(self)@.step(*wire, conn);
            assert(self@ =~= expected.0);
            assert(events@ =~= expected.1);
        }
        events
    }

    /// Put a receiver into another phase, keeping who it is.
    fn set_rx(&mut self, i: usize, version: u64, awaiting: bool, borrowing: bool)
        requires
            i < old(self)@.receivers.len(),
        ensures
            final(self)@ == (WatchGame {
                receivers: old(self)@.receivers.update(
                    i as int,
                    RxInfo { version, awaiting, borrowing, ..old(self)@.receivers[i as int] },
                ),
                ..old(self)@
            }),
    {
        let info = self.receivers[i];
        self.receivers.set(
            i,
            RxInfo { id: info.id, owner: info.owner, version, awaiting, borrowing },
        );
    }

    /// The full state, as clients see it.
    pub fn snapshot(&self) -> (snapshot: WatchSnapshot)
        ensures
            self@.shown_by(snapshot),
    {
        let receivers = self.receivers.clone();
        assert(receivers@ =~= self.receivers@);
        WatchSnapshot {
            created: self.created,
            value: self.value,
            version: self.version,
            pending_send: self.pending_send,
            presenter: self.presenter,
            receivers,
        }
    }
}

/// `index_of` finds the first receiver with that id.
pub proof fn lemma_index_of(receivers: Seq<RxInfo>, id: u64)
    ensures
        0 <= index_of(receivers, id) <= receivers.len(),
        index_of(receivers, id) < receivers.len() ==> receivers[index_of(receivers, id)].id == id,
        forall|j: int|
            0 <= j < index_of(receivers, id) ==> (#[trigger] receivers[j]).id != id,
    decreases receivers.len(),
{
    if receivers.len() > 0 {
        let rest = receivers.drop_last();
        lemma_index_of(rest, id);
        assert(forall|j: int| 0 <= j < rest.len() ==> rest[j] == receivers[j]);
    }
}

/// A connection's ids are those of the receivers it owns.
pub proof fn lemma_owned_ids(receivers: Seq<RxInfo>, conn: u64, i: int)
    requires
        0 <= i < receivers.len(),
        receivers[i].owner == conn,
    ensures
        ids_owned_by(receivers, conn).contains(receivers[i].id),
    decreases receivers.len(),
{
    let rest = receivers.drop_last();
    let before = ids_owned_by(rest, conn);
    if i < rest.len() {
        lemma_owned_ids(rest, conn, i);
        let k = choose|k: int| 0 <= k < before.len() && before[k] == receivers[i].id;
        assert(ids_owned_by(receivers, conn)[k] == receivers[i].id);
    } else {
        assert(ids_owned_by(receivers, conn)[before.len() as int] == receivers[i].id);
    }
}

proof fn lemma_index_prefix(receivers: Seq<RxInfo>, id: u64, n: int)
    requires
        0 <= n <= receivers.len(),
    ensures
        0 <= index_of(receivers.take(n), id) <= n,
        index_of(receivers.take(n), id) < n ==> index_of(receivers, id) == index_of(
            receivers.take(n),
            id,
        ),
    decreases receivers.len(),
{
    if n < receivers.len() {
        lemma_index_prefix(receivers.drop_last(), id, n);
        assert(receivers.drop_last().take(n) =~= receivers.take(n));
    } else {
        assert(receivers.take(n) =~= receivers);
        if n > 0 {
            lemma_index_prefix(receivers.drop_last(), id, n - 1);
            assert(receivers.drop_last().take(n - 1) =~= receivers.drop_last());
        }
    }
}

proof fn lemma_borrowing_push(receivers: Seq<RxInfo>, rx: RxInfo)
    requires
        !rx.borrowing,
    ensures
        any_borrowing(receivers.push(rx)) == any_borrowing(receivers),
{
    if any_borrowing(receivers) {
        let i = choose|i: int| 0 <= i < receivers.len() && (#[trigger] receivers[i]).borrowing;
        assert(receivers.push(rx)[i].borrowing);
    }
    if any_borrowing(receivers.push(rx)) {
        let i = choose|i: int|
            0 <= i < receivers.push(rx).len() && (#[trigger] receivers.push(rx)[i]).borrowing;
        assert(receivers[i].borrowing);
    }
}

proof fn lemma_borrowing_same(a: Seq<RxInfo>, b: Seq<RxInfo>)
    requires
        a.len() == b.len(),
        forall|i: int| 0 <= i < a.len() ==> (#[trigger] a[i]).borrowing == b[i].borrowing,
    ensures
        any_borrowing(a) == any_borrowing(b),
{
    if any_borrowing(a) {
        let i = choose|i: int| 0 <= i < a.len() && (#[trigger] a[i]).borrowing;
        assert(b[i].borrowing);
    }
    if any_borrowing(b) {
        let i = choose|i: int| 0 <= i < b.len() && (#[trigger] b[i]).borrowing;
        assert(a[i].borrowing);
    }
}

proof fn lemma_borrowing_remove(receivers: Seq<RxInfo>, k: int)
    requires
        0 <= k < receivers.len(),
        !receivers[k].borrowing,
    ensures
        any_borrowing(receivers.remove(k)) == any_borrowing(receivers),
{
    let left = receivers.remove(k);
    if any_borrowing(receivers) {
        let i = choose|i: int| 0 <= i < receivers.len() && (#[trigger] receivers[i]).borrowing;
        let j = if i < k {
            i
        } else {
            i - 1
        };
        assert(left[j].borrowing);
    }
    if any_borrowing(left) {
        let i = choose|i: int| 0 <= i < left.len() && (#[trigger] left[i]).borrowing;
        let j = if i < k {
            i
        } else {
            i + 1
        };
        assert(receivers[j].borrowing);
    }
}

/// A commit changes nobody's guard.
proof fn lemma_commit_keeps_guards(game: WatchGame, ch: char)
    ensures
        any_borrowing(game.commit(ch).0.receivers) == any_borrowing(game.receivers),
{
    lemma_borrowing_same(game.receivers, game.commit(ch).0.receivers);
}

/// While anyone looks inside, the value stays put: a command that leaves a
/// guard out has moved neither the value nor its version.
pub proof fn law_guards_protect_the_value(game: WatchGame, wire: WatchWire, conn: u64)
    requires
        game.wf(),
        game.created,
        any_borrowing(game.step(wire, conn).0.receivers),
    ensures
        game.step(wire, conn).0.value == game.value,
        game.step(wire, conn).0.version == game.version,
{
    match wire {
        WatchWire::Send { ch } => {
            lemma_commit_keeps_guards(game, ch);
        },
        WatchWire::LookInside { rx } => {
            let info = game.receivers[index_of(game.receivers, rx)];
            let left = game.with_rx(rx, RxInfo { borrowing: false, ..info });
            let clear = WatchGame { pending_send: None, ..left };
            lemma_commit_keeps_guards(clear, game.pending_send->Some_0);
        },
        WatchWire::DropReceiver { rx } => {
            let i = index_of(game.receivers, rx);
            let left = WatchGame { receivers: game.receivers.remove(i), ..game };
            let clear = WatchGame { pending_send: None, ..left };
            lemma_commit_keeps_guards(clear, game.pending_send->Some_0);
        },
        _ => {},
    }
}

/// The value is the presenter's: a command from anyone else moves it only by
/// releasing the guard that a pending send of the presenter waits behind, and
/// then to what the presenter sent.
pub proof fn law_only_the_presenter_moves_the_value(game: WatchGame, wire: WatchWire, conn: u64)
    requires
        game.wf(),
        game.presenter != Some(conn),
    ensures
        ({
            let after = game.step(wire, conn).0;
            after.value != game.value ==> {
                &&& game.pending_send is Some
                &&& after.value == game.pending_send
                &&& after.pending_send is None
            }
        }),
{
}

/// Another connection's receiver cannot be operated: such a command changes
/// and announces nothing.
pub proof fn law_foreign_receivers_are_untouchable(game: WatchGame, rx: u64, conn: u64)
    requires
        game.wf(),
        !game.operable(rx, conn),
    ensures
        game.step(WatchWire::AwaitChange { rx }, conn) == (game, Seq::<WatchEvent>::empty()),
        game.step(WatchWire::LookInside { rx }, conn) == (game, Seq::<WatchEvent>::empty()),
        game.step(WatchWire::DropReceiver { rx }, conn) == (game, Seq::<WatchEvent>::empty()),
{
}

/// Only the presenter creates and sends: from anyone else, such a command
/// changes and announces nothing.
pub proof fn law_only_the_presenter_creates_and_sends(
    game: WatchGame,
    conn: u64,
    init: Option<char>,
    ch: char,
)
    requires
        game.presenter != Some(conn),
    ensures
        game.step(WatchWire::Create { init }, conn) == (game, Seq::<WatchEvent>::empty()),
        game.step(WatchWire::Send { ch }, conn) == (game, Seq::<WatchEvent>::empty()),
{
}

/// What can happen to the game.
pub enum WatchTurn {
    /// The presenter slot goes to somebody, or to nobody.
    Seat { presenter: Option<u64> },
    /// A command arrives from `conn`.
    Command { wire: WatchWire, conn: u64 },
}

impl WatchGame {
    /// The state after one turn.
    pub open spec fn after(self, turn: WatchTurn) -> Self {
        match turn {
            WatchTurn::Seat { presenter } => WatchGame { presenter, ..self },
            WatchTurn::Command { wire, conn } => self.step(wire, conn).0,
        }
    }

    /// The state after a run of turns.
    pub open spec fn run(self, turns: Seq<WatchTurn>) -> Self
        decreases turns.len(),
    {
        if turns.len() == 0 {
            self
        } else {
            self.run(turns.drop_last()).after(turns.last())
        }
    }

    /// Whether a receiver bears this id.
    pub open spec fn has_receiver(self, id: u64) -> bool {
        exists|i: int| 0 <= i < self.receivers.len() && (#[trigger] self.receivers[i]).id == id
    }
}

/// A commit keeps the invariant, and moves on by at most one version.
proof fn lemma_commit_keeps_wf(game: WatchGame, ch: char)
    requires
        game.wf(),
        game.created,
        game.version < u64::MAX,
    ensures
        game.commit(ch).0.wf(),
        game.version <= game.commit(ch).0.version <= game.version + 1,
        game.commit(ch).0.next_rx == game.next_rx,
        forall|i: int|
            0 <= i < game.receivers.len() ==> (#[trigger] game.commit(ch).0.receivers[i]).id
                == game.receivers[i].id,
{
    lemma_commit_keeps_guards(game, ch);
}

/// A game whose last guard may just have gone: everything holds of it but
/// that a pending send has a guard to wait for.
proof fn lemma_resolve_keeps_wf(game: WatchGame)
    requires
        (WatchGame { pending_send: None, ..game }).wf(),
        game.created,
        game.version < u64::MAX,
    ensures
        game.resolve_pending().0.wf(),
        game.version <= game.resolve_pending().0.version <= game.version + 1,
        game.resolve_pending().0.next_rx == game.next_rx,
        game.resolve_pending().0.receivers.len() == game.receivers.len(),
        forall|i: int|
            0 <= i < game.receivers.len() ==> (#[trigger] game.resolve_pending().0.receivers[i]).id
                == game.receivers[i].id,
{
    match game.pending_send {
        Some(ch) => {
            lemma_commit_keeps_wf(WatchGame { pending_send: None, ..game }, ch);
        },
        None => {},
    }
}

/// One turn keeps the invariant, and takes neither the version nor the next id
/// back; whoever is new has an id from there on.
proof fn lemma_turn_keeps_wf(game: WatchGame, turn: WatchTurn)
    requires
        game.wf(),
        game.has_room(),
    ensures
        game.after(turn).wf(),
        game.version <= game.after(turn).version <= game.version + 1,
        game.next_rx <= game.after(turn).next_rx <= game.next_rx + 1,
        forall|i: int|
            0 <= i < game.after(turn).receivers.len() ==> game.next_rx <= (
            #[trigger] game.after(turn).receivers[i]).id || game.has_receiver(
                game.after(turn).receivers[i].id,
            ),
{
    let after = game.after(turn);
    match turn {
        WatchTurn::Seat { presenter } => {
            assert forall|i: int| 0 <= i < after.receivers.len() implies game.has_receiver(
                (#[trigger] after.receivers[i]).id,
            ) by {
                assert(game.receivers[i].id == after.receivers[i].id);
            }
        },
        WatchTurn::Command { wire, conn } => {
            lemma_command_keeps_wf(game, wire, conn);
        },
    }
}

proof fn lemma_command_keeps_wf(game: WatchGame, wire: WatchWire, conn: u64)
    requires
        game.wf(),
        game.has_room(),
    ensures
        game.step(wire, conn).0.wf(),
        game.version <= game.step(wire, conn).0.version <= game.version + 1,
        game.next_rx <= game.step(wire, conn).0.next_rx <= game.next_rx + 1,
        forall|i: int|
            0 <= i < game.step(wire, conn).0.receivers.len() ==> game.next_rx <= (
            #[trigger] game.step(wire, conn).0.receivers[i]).id || game.has_receiver(
                game.step(wire, conn).0.receivers[i].id,
            ),
{
    let after = game.step(wire, conn).0;
    match wire {
        WatchWire::Send { ch } => {
            if game.created {
                lemma_commit_keeps_wf(game, ch);
            }
        },
        WatchWire::NewReceiver => {
            if game.created {
                lemma_borrowing_push(game.receivers, after.receivers.last());
            }
        },
        WatchWire::CloneReceiver { rx } => {
            lemma_index_of(game.receivers, rx);
            if game.created && index_of(game.receivers, rx) < game.receivers.len() {
                lemma_borrowing_push(game.receivers, after.receivers.last());
            }
        },
        WatchWire::AwaitChange { rx } => {
            lemma_index_of(game.receivers, rx);
            if game.operable(rx, conn) {
                lemma_borrowing_same(game.receivers, after.receivers);
            }
        },
        WatchWire::LookInside { rx } => {
            lemma_index_of(game.receivers, rx);
            if game.operable(rx, conn) {
                let i = index_of(game.receivers, rx);
                let info = game.receivers[i];
                if info.borrowing {
                    lemma_resolve_keeps_wf(game.with_rx(rx, RxInfo { borrowing: false, ..info }));
                } else {
                    assert(after.receivers[i].borrowing);
                }
            }
        },
        WatchWire::DropReceiver { rx } => {
            lemma_index_of(game.receivers, rx);
            if game.operable(rx, conn) {
                let i = index_of(game.receivers, rx);
                let left = WatchGame { receivers: game.receivers.remove(i), ..game };
                if game.receivers[i].borrowing {
                    lemma_resolve_keeps_wf(left);
                } else {
                    lemma_borrowing_remove(game.receivers, i);
                }
                assert forall|k: int| 0 <= k < after.receivers.len() implies game.has_receiver(
                    (#[trigger] after.receivers[k]).id,
                ) by {
                    let j = if k < i {
                        k
                    } else {
                        k + 1
                    };
                    assert(left.receivers[k] == game.receivers[j]);
                    assert(game.receivers[j].id == after.receivers[k].id);
                }
            }
        },
        _ => {},
    }
    assert forall|k: int|
        0 <= k < after.receivers.len() && !(wire is DropReceiver) implies game.next_rx <= (
    #[trigger] after.receivers[k]).id || game.has_receiver(after.receivers[k].id) by {
        if k < game.receivers.len() {
            assert(game.receivers[k].id == after.receivers[k].id);
        }
    }
}

/// Over any run every snapshot shows a sound game: receivers are listed by
/// ascending id, none has seen more than there is, one that waits is up to
/// date, a send is only pending behind a guard, and nothing exists before the
/// channel was created. The version never decreases, and the id of a receiver
/// that was dropped never comes back.
pub proof fn law_snapshots_are_sound_over_any_run(game: WatchGame, turns: Seq<WatchTurn>)
    requires
        game.wf(),
        game.version + turns.len() <= u64::MAX,
        game.next_rx + turns.len() <= u64::MAX,
    ensures
        game.run(turns).wf(),
        game.version <= game.run(turns).version <= game.version + turns.len(),
        game.next_rx <= game.run(turns).next_rx <= game.next_rx + turns.len(),
        forall|i: int|
            0 <= i < game.run(turns).receivers.len() ==> game.next_rx <= (
            #[trigger] game.run(turns).receivers[i]).id || game.has_receiver(
                game.run(turns).receivers[i].id,
            ),
    decreases turns.len(),
{
    if turns.len() == 0 {
        assert forall|i: int| 0 <= i < game.receivers.len() implies game.has_receiver(
            (#[trigger] game.receivers[i]).id,
        ) by {
        }
    } else {
        let front = turns.drop_last();
        let before = game.run(front);
        let after = game.run(turns);
        law_snapshots_are_sound_over_any_run(game, front);
        lemma_turn_keeps_wf(before, turns.last());
        assert forall|i: int| 0 <= i < after.receivers.len() implies game.next_rx <= (
        #[trigger] after.receivers[i]).id || game.has_receiver(after.receivers[i].id) by {
            let id = after.receivers[i].id;
            if id < before.next_rx {
                let j = choose|j: int|
                    0 <= j < before.receivers.len() && (#[trigger] before.receivers[j]).id == id;
                assert(before.receivers[j].id == id);
            }
        }
    }
}

/// A send of the value that is already there is no change: nothing moves and
/// nobody wakes.
pub proof fn law_equal_value_wakes_nobody(game: WatchGame, ch: char, conn: u64)
    requires
        game.wf(),
        game.created,
        game.presenter == Some(conn),
        game.pending_send is None,
        game.receivers.len() > 0,
        !any_borrowing(game.receivers),
        game.value == Some(ch),
    ensures
        game.step(WatchWire::Send { ch }, conn) == (game, seq![WatchEvent::SameValue]),
{
}

/// An accepted send wakes everyone who waits in `changed()`, up to date, and
/// leaves everyone else behind by at least this change.
pub proof fn law_change_reaches_every_receiver(game: WatchGame, ch: char, i: int)
    requires
        game.wf(),
        game.version < u64::MAX,
        game.value != Some(ch),
        0 <= i < game.receivers.len(),
    ensures
        ({
            let after = game.commit(ch).0;
            &&& after.value == Some(ch)
            &&& after.version == game.version + 1
            &&& !after.receivers[i].awaiting
            &&& game.receivers[i].awaiting ==> after.receivers[i].version == after.version
            &&& !game.receivers[i].awaiting ==> after.receivers[i].version < after.version
        }),
{
}

/// The channel is created once, by the presenter, with its value at version
/// zero and nobody receiving.
pub proof fn law_channel_is_created_once(game: WatchGame, conn: u64, init: Option<char>)
    requires
        game.wf(),
    ensures
        ({
            let (after, said) = game.step(WatchWire::Create { init }, conn);
            &&& !game.created && game.presenter == Some(conn) ==> {
                &&& after.created
                &&& after.value == init
                &&& after.version == 0
                &&& after.receivers.len() == 0
                &&& after.next_rx == game.next_rx
                &&& after.presenter == game.presenter
                &&& said == seq![WatchEvent::Created]
            }
            &&& game.created ==> after == game && said.len() == 0
        }),
{
}

/// Before the channel is created nothing can be sent or received on.
pub proof fn law_nothing_before_the_channel(game: WatchGame, wire: WatchWire, conn: u64)
    requires
        game.wf(),
        !game.created,
        !(wire is Create),
    ensures
        game.step(wire, conn) == (game, Seq::<WatchEvent>::empty()),
{
    match wire {
        WatchWire::AwaitChange { rx } | WatchWire::LookInside { rx } | WatchWire::DropReceiver {
            rx,
        } | WatchWire::CloneReceiver { rx } => {
            lemma_index_of(game.receivers, rx);
        },
        _ => {},
    }
}

/// A new receiver belongs to whoever asked, has seen the current value and is
/// idle; a clone has seen what its source had, and is idle too. Both get an id
/// above all others, and nobody else notices.
pub proof fn law_receivers_appear_idle(game: WatchGame, conn: u64, i: int)
    requires
        game.wf(),
        game.has_room(),
        game.created,
    ensures
        ({
            let (after, said) = game.step(WatchWire::NewReceiver, conn);
            &&& after.receivers.drop_last() == game.receivers
            &&& after.receivers.last() == (RxInfo {
                id: game.next_rx,
                owner: conn,
                version: game.version,
                awaiting: false,
                borrowing: false,
            })
            &&& after.next_rx == game.next_rx + 1
            &&& after.value == game.value && after.version == game.version
            &&& after.pending_send == game.pending_send
            &&& said == seq![WatchEvent::ReceiverAdded { id: game.next_rx, owner: conn }]
        }),
        0 <= i < game.receivers.len() ==> {
            let rx = game.receivers[i].id;
            let (after, said) = game.step(WatchWire::CloneReceiver { rx }, conn);
            &&& after.receivers.drop_last() == game.receivers
            &&& after.receivers.last() == (RxInfo {
                id: game.next_rx,
                owner: conn,
                version: game.receivers[i].version,
                awaiting: false,
                borrowing: false,
            })
            &&& after.value == game.value && after.version == game.version
            &&& said == seq![WatchEvent::ReceiverAdded { id: game.next_rx, owner: conn }]
        },
{
    assert(game.step(WatchWire::NewReceiver, conn).0.receivers.drop_last() =~= game.receivers);
    if 0 <= i < game.receivers.len() {
        let rx = game.receivers[i].id;
        lemma_index_at(game, i);
        assert(game.step(WatchWire::CloneReceiver { rx }, conn).0.receivers.drop_last()
            =~= game.receivers);
    }
}

/// A receiver is found under its id.
proof fn lemma_index_at(game: WatchGame, i: int)
    requires
        game.wf(),
        0 <= i < game.receivers.len(),
    ensures
        index_of(game.receivers, game.receivers[i].id) == i,
{
    let id = game.receivers[i].id;
    lemma_index_of(game.receivers, id);
    lemma_found(game.receivers, id, i);
    let k = index_of(game.receivers, id);
    if k != i {
        assert(game.receivers[k].id == game.receivers[i].id);
    }
}

proof fn lemma_found(receivers: Seq<RxInfo>, id: u64, i: int)
    requires
        0 <= i < receivers.len(),
        receivers[i].id == id,
    ensures
        index_of(receivers, id) <= i,
    decreases receivers.len(),
{
    let rest = receivers.drop_last();
    lemma_index_of(rest, id);
    if i < rest.len() {
        lemma_found(rest, id, i);
    }
}

/// Asking for a change waits exactly if there is none to see; a receiver that
/// is behind catches up at once and says so; asking again takes the wait back.
/// No guard is taken, and nothing but this receiver changes.
pub proof fn law_awaiting_a_change(game: WatchGame, i: int)
    requires
        game.wf(),
        0 <= i < game.receivers.len(),
    ensures
        ({
            let before = game.receivers[i];
            let (after, said) = game.step(
                WatchWire::AwaitChange { rx: before.id },
                before.owner,
            );
            let rx = after.receivers[i];
            &&& rx.awaiting <==> !before.awaiting && before.version == game.version
            &&& rx.version == game.version || before.awaiting
            &&& before.awaiting ==> rx.version == before.version
            &&& rx.borrowing == before.borrowing
            &&& rx.id == before.id && rx.owner == before.owner
            &&& after == (WatchGame { receivers: game.receivers.update(i, rx), ..game })
            &&& said == if !before.awaiting && before.version < game.version {
                seq![WatchEvent::ChangedImmediately { rx: before.id }]
            } else {
                seq![]
            }
        }),
{
    lemma_index_at(game, i);
    let before = game.receivers[i];
    let after = game.step(WatchWire::AwaitChange { rx: before.id }, before.owner).0;
    assert(after.receivers =~= game.receivers.update(i, after.receivers[i]));
}

/// Looking inside takes a guard and nothing else changes; looking away gives
/// it back. A send that was held back goes through when the last guard is
/// gone, and not before.
pub proof fn law_looking_inside_takes_a_guard(game: WatchGame, i: int)
    requires
        game.wf(),
        game.has_room(),
        0 <= i < game.receivers.len(),
    ensures
        ({
            let before = game.receivers[i];
            let (after, said) = game.step(WatchWire::LookInside { rx: before.id }, before.owner);
            &&& after.receivers.len() == game.receivers.len()
            &&& after.receivers[i].borrowing == !before.borrowing
            &&& after.receivers[i].id == before.id
            &&& after.presenter == game.presenter
            &&& !before.borrowing ==> {
                &&& after == (WatchGame {
                    receivers: game.receivers.update(i, RxInfo { borrowing: true, ..before }),
                    ..game
                })
                &&& said == seq![WatchEvent::BorrowFlight { rx: before.id }]
            }
            &&& before.borrowing && game.pending_send is None ==> {
                &&& after == (WatchGame {
                    receivers: game.receivers.update(i, RxInfo { borrowing: false, ..before }),
                    ..game
                })
                &&& said.len() == 0
            }
            &&& before.borrowing ==> {
                let others = exists|j: int|
                    0 <= j < game.receivers.len() && j != i && (
                    #[trigger] game.receivers[j]).borrowing;
                &&& others ==> after.pending_send == game.pending_send && after.value == game.value
                    && after.version == game.version && said.len() == 0
                &&& !others ==> after.pending_send is None
                &&& !others && game.pending_send is Some ==> after.value == game.pending_send
                &&& !others && game.pending_send is Some && game.pending_send == game.value
                    ==> after.version == game.version && said == seq![WatchEvent::SameValue]
                &&& !others && game.pending_send is Some && game.pending_send != game.value
                    ==> after.version == game.version + 1 && said == seq![
                    WatchEvent::Changed {
                        version: (game.version + 1) as u64,
                        ch: game.pending_send->Some_0,
                    },
                ]
            }
        }),
{
    lemma_index_at(game, i);
    let before = game.receivers[i];
    let left = game.with_rx(before.id, RxInfo { borrowing: false, ..before });
    let after = game.step(WatchWire::LookInside { rx: before.id }, before.owner).0;
    assert(left.receivers =~= game.receivers.update(i, RxInfo { borrowing: false, ..before }));
    if before.borrowing {
        let others = exists|j: int|
            0 <= j < game.receivers.len() && j != i && (#[trigger] game.receivers[j]).borrowing;
        if others {
            let j = choose|j: int|
                0 <= j < game.receivers.len() && j != i && (#[trigger] game.receivers[j]).borrowing;
            assert(left.receivers[j].borrowing);
        } else {
            assert forall|j: int| 0 <= j < left.receivers.len() implies !(
            #[trigger] left.receivers[j]).borrowing by {
                if j != i {
                    assert(!game.receivers[j].borrowing);
                }
            }
            if game.pending_send is Some {
                let ch = game.pending_send->Some_0;
                let clear = WatchGame { pending_send: None, ..left };
                let version = (game.version + 1) as u64;
                assert(left.resolve_pending() == clear.commit(ch));
                if clear.value == Some(ch) {
                    assert(clear.commit(ch).1 == seq![WatchEvent::SameValue]);
                } else {
                    assert(clear.commit(ch).1 == seq![WatchEvent::Changed { version, ch }]);
                }
            }
        }
        assert(after.receivers[i].borrowing == left.receivers[i].borrowing);
    }
}

/// Dropping a receiver takes it off the list, with its guard, and says so
/// first; the others keep their places. A send that it alone held back goes
/// through, or is refused if nobody is left to see it.
pub proof fn law_dropping_a_receiver(game: WatchGame, i: int)
    requires
        game.wf(),
        game.has_room(),
        0 <= i < game.receivers.len(),
    ensures
        ({
            let before = game.receivers[i];
            let (after, said) = game.step(
                WatchWire::DropReceiver { rx: before.id },
                before.owner,
            );
            &&& after.receivers.len() == game.receivers.len() - 1
            &&& said.len() > 0
            &&& said[0] == (WatchEvent::ReceiverRemoved { id: before.id })
            &&& forall|j: int| 0 <= j < after.receivers.len() ==> (
            #[trigger] after.receivers[j]).id == game.receivers.remove(i)[j].id
            &&& after.presenter == game.presenter
            &&& after.next_rx == game.next_rx
            &&& !before.borrowing || game.pending_send is None ==> after == (WatchGame {
                receivers: game.receivers.remove(i),
                ..game
            }) && said.len() == 1
            &&& before.borrowing && game.pending_send is Some && game.receivers.len() == 1 ==> {
                &&& after.pending_send is None
                &&& after.value == game.value && after.version == game.version
                &&& said == seq![
                    WatchEvent::ReceiverRemoved { id: before.id },
                    WatchEvent::SendRefused,
                ]
            }
            &&& after.pending_send is Some ==> after.pending_send == game.pending_send
                && after.value == game.value && after.version == game.version
            &&& before.borrowing && game.pending_send is Some && game.receivers.len() > 1
                && after.pending_send is None ==> after.value == game.pending_send
        }),
{
    lemma_index_at(game, i);
    let before = game.receivers[i];
    let (after, said) = game.step(WatchWire::DropReceiver { rx: before.id }, before.owner);
    let left = WatchGame { receivers: game.receivers.remove(i), ..game };
    if before.borrowing && game.pending_send is Some && game.receivers.len() == 1 {
        assert(said =~= seq![
            WatchEvent::ReceiverRemoved { id: before.id },
            WatchEvent::SendRefused,
        ]);
    }
    assert(said[0] == WatchEvent::ReceiverRemoved { id: before.id });
}

/// What the presenter sends goes through, waits or is refused: it is refused
/// while nobody receives, waits while a guard is out, is not heard while
/// another one waits, and goes through otherwise.
pub proof fn law_send_goes_through_waits_or_is_refused(game: WatchGame, conn: u64, ch: char)
    requires
        game.wf(),
        game.has_room(),
        game.created,
        game.presenter == Some(conn),
    ensures
        ({
            let (after, said) = game.step(WatchWire::Send { ch }, conn);
            let guarded = exists|i: int|
                0 <= i < game.receivers.len() && (#[trigger] game.receivers[i]).borrowing;
            &&& game.pending_send is Some ==> after == game && said.len() == 0
            &&& game.pending_send is None && game.receivers.len() == 0 ==> after == game && said
                == seq![WatchEvent::SendRefused]
            &&& game.pending_send is None && guarded ==> after == (WatchGame {
                pending_send: Some(ch),
                ..game
            }) && said == seq![WatchEvent::SendBlocked]
            &&& game.pending_send is None && !guarded && game.receivers.len() > 0 ==> {
                &&& after.value == Some(ch)
                &&& after.pending_send is None
                &&& after.receivers.len() == game.receivers.len()
                &&& game.value == Some(ch) ==> after == game && said == seq![WatchEvent::SameValue]
                &&& game.value != Some(ch) ==> after.version == game.version + 1 && said == seq![
                    WatchEvent::Changed { version: (game.version + 1) as u64, ch },
                ]
                &&& forall|i: int|
                    0 <= i < game.receivers.len() ==> {
                        &&& (#[trigger] after.receivers[i]).id == game.receivers[i].id
                        &&& after.receivers[i].owner == game.receivers[i].owner
                        &&& after.receivers[i].borrowing == game.receivers[i].borrowing
                    }
            }
        }),
{
}

/// What clients see of a game is all of it but the next id.
pub proof fn law_snapshot_shows_the_game(game: WatchGame, shown: WatchSnapshot)
    requires
        game.shown_by(shown),
    ensures
        shown.created == game.created,
        shown.value == game.value,
        shown.version == game.version,
        shown.pending_send == game.pending_send,
        shown.presenter == game.presenter,
        shown.receivers@ == game.receivers,
{
}

/// A fresh game has no channel, no presenter and no receivers.
pub proof fn law_fresh_game_is_empty(shown: WatchSnapshot)
    requires
        WatchGame::fresh().shown_by(shown),
    ensures
        WatchGame::fresh().wf(),
        !shown.created,
        shown.value is None,
        shown.version == 0,
        shown.pending_send is None,
        shown.presenter is None,
        shown.receivers@.len() == 0,
        WatchGame::fresh().next_rx == 1,
{
}

} // verus!

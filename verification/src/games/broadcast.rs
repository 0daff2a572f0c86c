//! The broadcast page: senders on the left, the ring buffer in the middle,
//! receivers on the right. Sending never blocks; whoever falls behind meets
//! `Lagged`.
//!
//! The authority is the last snapshot; the only extras are the flights of
//! values that were sent.

use vstd::prelude::*;
use vstd::string::*;

use crate::games::mpsc::{draft_of, send_from as mpsc_send_from, without_draft};
use crate::games::palette::{css_color, sender_hex, tableau};
use crate::protocol::{
    BroadcastError, BroadcastEvent, BroadcastSnapshot, BroadcastWire, BufferChar, MpscWire,
    RxState, SenderInfo, BROADCAST_CAPACITY,
};
use crate::sim::broadcast::{
    law_claim_moves_only_the_hosts_handles, law_fresh_game_has_the_host, BroadcastGame, BroadcastSim, BROADCAST_HOST_CONN,
};
use crate::sim::LOCAL_CONN;
use crate::text::{decimal, push_decimal};

verus! {

/// A value flying from a sender into the buffer's tail.
#[derive(Debug, Clone, Copy, PartialEq, Eq, Structural)]
pub struct Flight {
    pub key: u64,
    pub from: u64,
    pub ch: char,
}

/// What the page knows: the last snapshot, and what is in the air.
#[derive(Debug, Clone, PartialEq)]
pub struct ChannelState {
    pub snap: BroadcastSnapshot,
    pub flights: Vec<Flight>,
    /// Monotonic flight-key generator; flights are cosmetic.
    pub key: u64,
}

/// Whether a snapshot is that of a channel that nobody has spoken of yet.
pub open spec fn is_blank(snap: BroadcastSnapshot) -> bool {
    &&& snap.senders@.len() == 0
    &&& snap.buffer@.len() == 0
    &&& snap.tail == 0
    &&& snap.receivers@.len() == 0
    &&& snap.presenter is None
}

/// The snapshot of a channel that nobody has spoken of yet.
pub fn empty_snapshot() -> (snap: BroadcastSnapshot)
    ensures
        is_blank(snap),
{
    BroadcastSnapshot {
        senders: Vec::new(),
        buffer: Vec::new(),
        tail: 0,
        receivers: Vec::new(),
        presenter: None,
    }
}

/// The flight that an event starts, under the next key.
pub open spec fn launched(key: u64, event: BroadcastEvent) -> Option<Flight> {
    match event {
        BroadcastEvent::InFlight { conn, ch } => Some(
            Flight { key: (key + 1) as u64, from: conn, ch },
        ),
        _ => None,
    }
}

/// What an event does to the flights and to the key generator.
pub open spec fn flown(flights: Seq<Flight>, key: u64, event: BroadcastEvent) -> (
    Seq<Flight>,
    u64,
) {
    match launched(key, event) {
        Some(flight) => (flights.push(flight), flight.key),
        None => (flights, key),
    }
}

/// What several events do, one after the other.
pub open spec fn all_flown(flights: Seq<Flight>, key: u64, events: Seq<BroadcastEvent>) -> (
    Seq<Flight>,
    u64,
)
    decreases events.len(),
{
    if events.len() == 0 {
        (flights, key)
    } else {
        let (before, used) = all_flown(flights, key, events.drop_last());
        flown(before, used, events.last())
    }
}

/// The flights without the one under `key`.
pub open spec fn without_key(flights: Seq<Flight>, key: u64) -> Seq<Flight>
    decreases flights.len(),
{
    if flights.len() == 0 {
        Seq::empty()
    } else {
        let before = without_key(flights.drop_last(), key);
        if flights.last().key == key {
            before
        } else {
            before.push(flights.last())
        }
    }
}

impl ChannelState {
    /// A page that shows `snap`, with nothing in the air.
    pub fn new(snap: BroadcastSnapshot) -> (state: Self)
        ensures
            state.snap == snap,
            state.flights@.len() == 0,
            state.key == 0,
    {
        ChannelState { snap, flights: Vec::new(), key: 0 }
    }

    /// Show another snapshot; what is in the air stays there.
    pub fn set_snapshot(&mut self, snap: BroadcastSnapshot)
        ensures
            final(self).snap == snap,
            final(self).flights == old(self).flights,
            final(self).key == old(self).key,
    {
        self.snap = snap;
    }

    /// An animation ended, or was given up on.
    pub fn remove_flight(&mut self, key: u64)
        ensures
            final(self).snap == old(self).snap,
            final(self).key == old(self).key,
            final(self).flights@ == without_key(old(self).flights@, key),
    {
        let ghost before = self.flights@;
        let mut kept: Vec<Flight> = Vec::new();
        let mut i: usize = 0;
        while i < self.flights.len()
            invariant
                i <= self.flights@.len(),
                self.flights@ == before,
                self.snap == old(self).snap,
                self.key == old(self).key,
                kept@ == without_key(before.take(i as int), key),
            decreases self.flights@.len() - i,
        {
            let flight = self.flights[i];
            assert(before.take(i + 1).drop_last() =~= before.take(i as int));
            if flight.key != key {
                kept.push(flight);
            }
            i = i + 1;
        }
        assert(before.take(i as int) =~= before);
        self.flights = kept;
    }

    fn launch(&mut self, event: &BroadcastEvent) -> (key: Option<u64>)
        requires
            old(self).key < u64::MAX,
        ensures
            final(self).snap == old(self).snap,
            (final(self).flights@, final(self).key) == flown(
                old(self).flights@,
                old(self).key,
                *event,
            ),
            key == match launched(old(self).key, *event) {
                Some(flight) => Some(flight.key),
                None => None,
            },
    {
        match event {
            BroadcastEvent::InFlight { conn, ch } => {
                self.key = self.key + 1;
                let key: u64 = self.key;
                self.flights.push(Flight { key, from: *conn, ch: *ch });
                Some(key)
            },
            _ => None,
        }
    }

    /// An event arrived: the key of a flight that it started, if any. A
    /// snapshot replaces what is shown; everything else is covered by the
    /// snapshot that follows.
    pub fn apply(&mut self, event: BroadcastEvent) -> (key: Option<u64>)
        requires
            old(self).key < u64::MAX,
        ensures
            (final(self).flights@, final(self).key) == flown(
                old(self).flights@,
                old(self).key,
                event,
            ),
            final(self).snap == match event {
                BroadcastEvent::Snapshot { state } => state,
                _ => old(self).snap,
            },
            key == match launched(old(self).key, event) {
                Some(flight) => Some(flight.key),
                None => None,
            },
    {
        let key = self.launch(&event);
        match event {
            BroadcastEvent::Snapshot { state } => {
                self.snap = state;
            },
            _ => {},
        }
        key
    }

    fn animate(&mut self, events: &Vec<BroadcastEvent>)
        requires
            old(self).key + events@.len() <= u64::MAX,
        ensures
            (final(self).flights@, final(self).key) == all_flown(
                old(self).flights@,
                old(self).key,
                events@,
            ),
            final(self).snap == old(self).snap,
    {
        let ghost flights = self.flights@;
        let ghost key = self.key;
        let mut i: usize = 0;
        assert(events@.take(0) =~= Seq::empty());
        while i < events.len()
            invariant
                i <= events@.len(),
                key + events@.len() <= u64::MAX,
                self.key <= key + i,
                self.snap == old(self).snap,
                (self.flights@, self.key) == all_flown(flights, key, events@.take(i as int)),
            decreases events@.len() - i,
        {
            assert(events@.take(i + 1).drop_last() =~= events@.take(i as int));
            self.launch(&events[i]);
            i = i + 1;
        }
        assert(events@.take(i as int) =~= events@);
    }
}

/// The single-player game: the lone player is the presenter and owns the host's
/// sender.
pub open spec fn local_game() -> BroadcastGame {
    BroadcastGame::fresh().step(BroadcastWire::ClaimPresenter, LOCAL_CONN).0
}

/// The sim of a single-player game.
pub fn local_sim() -> (sim: BroadcastSim)
    ensures
        sim.wf(),
        sim@ == local_game(),
{
    let mut sim = BroadcastSim::new();
    sim.handle(&BroadcastWire::ClaimPresenter, LOCAL_CONN);
    sim
}

/// A command in single-player mode, against the sim in the browser: what the
/// server's actor would have broadcast is applied at once.
pub fn dispatch_local(sim: &mut BroadcastSim, chan: &mut ChannelState, wire: &BroadcastWire)
    requires
        old(sim).wf(),
        old(sim)@.has_room(),
        old(chan).key + old(sim)@.step(*wire, LOCAL_CONN).1.len() <= u64::MAX,
    ensures
        final(sim).wf(),
        ({
            let (after, events) = old(sim)@.step(*wire, LOCAL_CONN);
            &&& final(sim)@ == after
            &&& after.shown_by(final(chan).snap)
            &&& (final(chan).flights@, final(chan).key) == all_flown(
                old(chan).flights@,
                old(chan).key,
                events,
            )
        }),
{
    let events = sim.handle(wire, LOCAL_CONN);
    chan.animate(&events);
    chan.set_snapshot(sim.snapshot());
}

/// The send button beside `handle`: what to send, which empties the draft;
/// nothing without one.
pub fn send_from(drafts: &mut Vec<(u64, char)>, handle: u64) -> (wire: Option<BroadcastWire>)
    ensures
        match draft_of(old(drafts)@, handle) {
            Some(ch) => {
                &&& wire == Some(BroadcastWire::Send { conn: handle, ch })
                &&& final(drafts)@ == without_draft(old(drafts)@, handle)
            },
            None => {
                &&& wire is None
                &&& final(drafts)@ == old(drafts)@
            },
        },
{
    match mpsc_send_from(drafts, handle) {
        Some(MpscWire::Send { conn, ch }) => Some(BroadcastWire::Send { conn, ch }),
        _ => None,
    }
}

/// A sender as the viewer sees it.
#[derive(Debug, Clone, Copy, PartialEq, Eq, Structural)]
pub struct SenderView {
    pub conn: u64,
    pub owner: u64,
    /// The viewer may send from it.
    pub mine: bool,
    /// It is the one that every channel starts with.
    pub is_host: bool,
}

/// A sender as `my` sees it. A viewer without an identity owns nothing.
pub open spec fn seen_by(sender: SenderInfo, my: Option<u64>) -> SenderView {
    SenderView {
        conn: sender.conn,
        owner: sender.owner,
        mine: my == Some(sender.owner),
        is_host: sender.conn == BROADCAST_HOST_CONN,
    }
}

/// The senders as the viewer sees them, in the order of the list.
pub fn nodes(senders: &Vec<SenderInfo>, my: Option<u64>) -> (nodes: Vec<SenderView>)
    ensures
        nodes@ == senders@.map_values(|sender: SenderInfo| seen_by(sender, my)),
{
    let mut nodes: Vec<SenderView> = Vec::new();
    let mut i: usize = 0;
    while i < senders.len()
        invariant
            i <= senders@.len(),
            nodes@ == senders@.take(i as int).map_values(
                |sender: SenderInfo| seen_by(sender, my),
            ),
        decreases senders@.len() - i,
    {
        let sender = senders[i];
        let mine = match my {
            Some(my) => sender.owner == my,
            None => false,
        };
        nodes.push(
            SenderView {
                conn: sender.conn,
                owner: sender.owner,
                mine,
                is_host: sender.conn == BROADCAST_HOST_CONN,
            },
        );
        i = i + 1;
        assert(nodes@ =~= senders@.take(i as int).map_values(
            |sender: SenderInfo| seen_by(sender, my),
        ));
    }
    assert(senders@.take(i as int) =~= senders@);
    nodes
}

impl SenderView {
    /// What a node says about its handle when pointed at.
    pub fn title(&self) -> (title: &'static str)
        ensures
            title@ == (if self.is_host {
                "host seed sender"@
            } else if self.mine {
                "your sender"@
            } else {
                "another client's sender"@
            }),
    {
        if self.is_host {
            "host seed sender"
        } else if self.mine {
            "your sender"
        } else {
            "another client's sender"
        }
    }

    /// The class of a node.
    pub fn class(&self) -> (class: &'static str)
        ensures
            class@ == (if self.is_host {
                "actor sender-node host"@
            } else {
                "actor sender-node"@
            }),
    {
        if self.is_host {
            "actor sender-node host"
        } else {
            "actor sender-node"
        }
    }

    /// What a node shows.
    pub fn label(&self) -> (label: &'static str)
        ensures
            label@ == (if self.is_host {
                "host"@
            } else {
                "Sender"@
            }),
    {
        if self.is_host {
            "host"
        } else {
            "Sender"
        }
    }
}

/// The first receiver that `my` owns.
pub open spec fn receiver_of(receivers: Seq<RxState>, my: Option<u64>) -> Option<u64>
    decreases receivers.len(),
{
    if receivers.len() == 0 {
        None
    } else if my == Some(receivers[0].owner) {
        Some(receivers[0].receiver)
    } else {
        receiver_of(receivers.drop_first(), my)
    }
}

/// The viewer's own receiver, if they subscribed one.
pub fn my_receiver(receivers: &Vec<RxState>, my: Option<u64>) -> (receiver: Option<u64>)
    ensures
        receiver == receiver_of(receivers@, my),
{
    let me: u64 = match my {
        Some(me) => me,
        None => {
            proof {
                lemma_nobody_owns_nothing(receivers@);
            }
            return None;
        },
    };
    let mut i: usize = 0;
    assert(receivers@.skip(0) =~= receivers@);
    while i < receivers.len()
        invariant
            i <= receivers@.len(),
            my == Some(me),
            receiver_of(receivers@, my) == receiver_of(receivers@.skip(i as int), my),
        decreases receivers@.len() - i,
    {
        if receivers[i].owner == me {
            return Some(receivers[i].receiver);
        }
        assert(receivers@.skip(i as int).drop_first() =~= receivers@.skip(i + 1));
        i = i + 1;
    }
    None
}

proof fn lemma_nobody_owns_nothing(receivers: Seq<RxState>)
    ensures
        receiver_of(receivers, None) is None,
    decreases receivers.len(),
{
    if receivers.len() > 0 {
        lemma_nobody_owns_nothing(receivers.drop_first());
    }
}

/// Whether the channel is closed: every sender dropped.
pub fn is_closed(snap: &BroadcastSnapshot) -> (closed: bool)
    ensures
        closed == (snap.senders@.len() == 0),
{
    snap.senders.len() == 0
}

/// Position of the oldest retained value among all values ever sent, which
/// `tail` counts: the ring holds the positions from there up to `tail`. A
/// snapshot that retained more than was sent would start at zero.
pub open spec fn oldest_of(tail: u64, buffered: nat) -> nat {
    if buffered <= tail {
        (tail - buffered) as nat
    } else {
        0
    }
}

/// Position of the oldest retained value.
pub fn oldest_seq(tail: u64, buffered: usize) -> (oldest: u64)
    ensures
        oldest == oldest_of(tail, buffered as nat),
{
    if buffered as u64 <= tail {
        tail - buffered as u64
    } else {
        0
    }
}

/// The buffer's slots, oldest value first: each value with its position among
/// all values ever sent, then the slots that are still empty.
pub fn slots(snap: &BroadcastSnapshot) -> (slots: Vec<Option<(u64, BufferChar)>>)
    ensures
        slots@.len() == BROADCAST_CAPACITY,
        forall|i: int|
            0 <= i < BROADCAST_CAPACITY ==> #[trigger] slots@[i] == (if i < snap.buffer@.len() {
                Some(
                    ((oldest_of(snap.tail, snap.buffer@.len()) + i) as u64, snap.buffer@[i]),
                )
            } else {
                None
            }),
{
    let oldest = oldest_seq(snap.tail, snap.buffer.len());
    let mut slots: Vec<Option<(u64, BufferChar)>> = Vec::new();
    let mut i: usize = 0;
    while i < BROADCAST_CAPACITY
        invariant
            i <= BROADCAST_CAPACITY,
            slots@.len() == i,
            oldest == oldest_of(snap.tail, snap.buffer@.len()),
            forall|j: int|
                0 <= j < i ==> #[trigger] slots@[j] == (if j < snap.buffer@.len() {
                    Some(((oldest + j) as u64, snap.buffer@[j]))
                } else {
                    None
                }),
        decreases BROADCAST_CAPACITY - i,
    {
        if i < snap.buffer.len() {
            slots.push(Some((oldest + i as u64, snap.buffer[i])));
        } else {
            slots.push(None);
        }
        i = i + 1;
    }
    slots
}

/// Where a receiver's line ends: on the slot that its next value is in, and
/// whether it has fallen behind the oldest value. `next` counts from one, the
/// ring from the oldest. A receiver that is caught up has nothing to read yet,
/// so its line rests on the newest slot; over an empty buffer it has no slot.
pub open spec fn linked(snap: BroadcastSnapshot, rx: RxState) -> (Option<int>, bool) {
    let buffered = snap.buffer@.len() as int;
    let oldest = oldest_of(snap.tail, snap.buffer@.len()) as int;
    let cursor = if rx.next > 0 {
        rx.next - 1
    } else {
        0
    };
    if buffered == 0 {
        (None, false)
    } else if cursor < oldest {
        (Some(0), true)
    } else if cursor - oldest < buffered {
        (Some(cursor - oldest), false)
    } else {
        (Some(buffered - 1), false)
    }
}

/// Where a receiver's line ends.
pub fn link(snap: &BroadcastSnapshot, rx: &RxState) -> (link: (Option<usize>, bool))
    ensures
        link.1 == linked(*snap, *rx).1,
        match linked(*snap, *rx).0 {
            Some(slot) => link.0 matches Some(at) && at == slot,
            None => link.0 is None,
        },
{
    let buffered: usize = snap.buffer.len();
    if buffered == 0 {
        return (None, false);
    }
    let oldest = oldest_seq(snap.tail, buffered);
    let cursor: u64 = if rx.next > 0 {
        rx.next - 1
    } else {
        0
    };
    if cursor < oldest {
        (Some(0), true)
    } else if cursor - oldest < buffered as u64 {
        (Some((cursor - oldest) as usize), false)
    } else {
        (Some(buffered - 1), false)
    }
}

/// The colour of a receiver's line: red once it has fallen behind.
pub fn link_color(behind: bool) -> (color: &'static str)
    ensures
        color@ == (if behind {
            "#d32f2f"@
        } else {
            "#6b6b6b"@
        }),
{
    if behind {
        "#d32f2f"
    } else {
        "#6b6b6b"
    }
}

/// The slot that the next value goes into: behind the last one, until the
/// buffer is full.
pub fn tail_slot(tail: u64) -> (slot: usize)
    ensures
        slot == (if tail < BROADCAST_CAPACITY {
            tail as int
        } else {
            BROADCAST_CAPACITY as int
        }),
{
    if tail < BROADCAST_CAPACITY as u64 {
        tail as usize
    } else {
        BROADCAST_CAPACITY
    }
}

/// How full the buffer is.
pub fn occupancy(snap: &BroadcastSnapshot) -> (text: String)
    ensures
        text@ == "buffer "@ + decimal(snap.buffer@.len()) + " / "@ + decimal(
            BROADCAST_CAPACITY as nat,
        ),
{
    let mut text = "buffer ".to_owned();
    push_decimal(&mut text, snap.buffer.len() as u64);
    text.append(" / ");
    push_decimal(&mut text, BROADCAST_CAPACITY as u64);
    text
}

/// The class of a receiver's box.
pub fn receiver_class(rx: &RxState) -> (class: &'static str)
    ensures
        class@ == (if rx.error == Some(BroadcastError::Closed) {
            "actor rx-b-node closed"@
        } else if rx.waiting {
            "actor rx-b-node waiting"@
        } else {
            "actor rx-b-node"@
        }),
{
    if rx.error == Some(BroadcastError::Closed) {
        "actor rx-b-node closed"
    } else if rx.waiting {
        "actor rx-b-node waiting"
    } else {
        "actor rx-b-node"
    }
}

/// The name in a receiver's box.
pub fn receiver_label(rx: &RxState) -> (label: &'static str)
    ensures
        label@ == (if rx.error == Some(BroadcastError::Closed) {
            "closed"@
        } else if rx.waiting {
            "…"@
        } else {
            "Rx"@
        }),
{
    if rx.error == Some(BroadcastError::Closed) {
        "closed"
    } else if rx.waiting {
        "…"
    } else {
        "Rx"
    }
}

/// What a receiver got last, and the colour of whoever sent it.
pub fn last_received(last: Option<BufferChar>) -> (shown: (String, String))
    ensures
        shown.0@ == match last {
            Some(value) => seq![value.ch],
            None => "–"@,
        },
        shown.1@ == match last {
            Some(value) => css_color(tableau(value.conn as int % 10)),
            None => "#999"@,
        },
{
    match last {
        Some(value) => {
            let mut text = String::new();
            text.push(value.ch);
            assert(text@ =~= seq![value.ch]);
            (text, sender_hex(value.conn))
        },
        None => ("–".to_owned(), "#999".to_owned()),
    }
}

/// What a receiver missed: the lag it was just told of, that the channel is
/// closed, or how much it missed in all.
pub open spec fn badge_text(error: Option<BroadcastError>, lagged_total: u64) -> Seq<char> {
    match error {
        Some(BroadcastError::Lagged(n)) => "lagged "@ + decimal(n as nat),
        Some(BroadcastError::Closed) => "closed"@,
        None => if lagged_total > 0 {
            "missed "@ + decimal(lagged_total as nat)
        } else {
            Seq::empty()
        },
    }
}

/// The badge of a receiver, and its class.
pub fn badge(rx: &RxState) -> (badge: (String, &'static str))
    ensures
        badge.0@ == badge_text(rx.error, rx.lagged_total),
        badge.1@ == match rx.error {
            Some(BroadcastError::Lagged(_)) => "lag-badge"@,
            Some(BroadcastError::Closed) => "lag-badge closed"@,
            None => "lag-total"@,
        },
{
    let mut text = String::new();
    let class = match rx.error {
        Some(BroadcastError::Lagged(n)) => {
            text.append("lagged ");
            push_decimal(&mut text, n);
            "lag-badge"
        },
        Some(BroadcastError::Closed) => {
            text.append("closed");
            "lag-badge closed"
        },
        None => {
            if rx.lagged_total > 0 {
                text.append("missed ");
                push_decimal(&mut text, rx.lagged_total);
            }
            "lag-total"
        },
    };
    assert(text@ =~= badge_text(rx.error, rx.lagged_total));
    (text, class)
}

/// Whether the receive button of the viewer's receiver can be pressed: not
/// before the socket is open, and not once the channel is closed.
pub fn may_receive(rx: &RxState, connected: bool) -> (may: bool)
    ensures
        may == (connected && rx.error != Some(BroadcastError::Closed)),
{
    connected && !(rx.error == Some(BroadcastError::Closed))
}

/// A line ends inside the buffer: whatever the receiver's position, the slot
/// it is tied to holds a value, and it is the slot of its next value if that
/// is retained.
pub proof fn law_lines_end_on_values(snap: BroadcastSnapshot, rx: RxState)
    requires
        snap.buffer@.len() <= snap.tail,
    ensures
        match linked(snap, rx).0 {
            Some(slot) => {
                &&& 0 <= slot < snap.buffer@.len()
                &&& snap.tail - snap.buffer@.len() < rx.next <= snap.tail ==> snap.tail
                    - snap.buffer@.len() + slot == rx.next - 1
            },
            None => snap.buffer@.len() == 0,
        },
{
}

/// A value in flight is drawn once, from its sender and under a key that none
/// had; every other event leaves the air as it was.
pub proof fn law_only_sends_take_off(
    flights: Seq<Flight>,
    key: u64,
    event: BroadcastEvent,
    conn: u64,
    ch: char,
)
    requires
        key < u64::MAX,
    ensures
        ({
            let (up, used) = flown(flights, key, BroadcastEvent::InFlight { conn, ch });
            &&& up.len() == flights.len() + 1
            &&& up.drop_last() == flights
            &&& up.last() == Flight { key: used, from: conn, ch }
            &&& used == key + 1
        }),
        !(event is InFlight) ==> flown(flights, key, event) == (flights, key),
{
    let up = flown(flights, key, BroadcastEvent::InFlight { conn, ch }).0;
    assert(up.drop_last() =~= flights);
}

/// Events are followed one after the other.
pub proof fn law_events_are_followed_in_order(
    flights: Seq<Flight>,
    key: u64,
    front: Seq<BroadcastEvent>,
    back: Seq<BroadcastEvent>,
)
    ensures
        ({
            let (aloft, used) = all_flown(flights, key, front);
            all_flown(flights, key, front + back) == all_flown(aloft, used, back)
        }),
        all_flown(flights, key, Seq::empty()) == (flights, key),
    decreases back.len(),
{
    if back.len() == 0 {
        assert(front + back =~= front);
    } else {
        assert((front + back).drop_last() =~= front + back.drop_last());
        law_events_are_followed_in_order(flights, key, front, back.drop_last());
    }
}

/// A flight that is over is taken down, and no other.
pub proof fn law_flight_is_taken_down_by_its_key(flights: Seq<Flight>, key: u64)
    ensures
        without_key(flights, key) == flights.filter(|flight: Flight| flight.key != key),
    decreases flights.len(),
{
    reveal(Seq::filter);
    if flights.len() > 0 {
        law_flight_is_taken_down_by_its_key(flights.drop_last(), key);
    } else {
        assert(without_key(flights, key) =~= flights.filter(|flight: Flight| flight.key != key));
    }
}

/// A sender is the viewer's if they own it, and the host's if it is the one
/// that the channel started with.
pub proof fn law_sender_is_its_owners(sender: SenderInfo, my: Option<u64>)
    ensures
        ({
            let view = seen_by(sender, my);
            &&& view.conn == sender.conn
            &&& view.owner == sender.owner
            &&& view.mine <==> my is Some && my->Some_0 == sender.owner
            &&& view.is_host <==> sender.conn == BROADCAST_HOST_CONN
        }),
{
}

/// The viewer's receiver is the first that they own.
pub proof fn law_first_own_receiver_counts(receivers: Seq<RxState>, my: u64, i: int)
    requires
        0 <= i <= receivers.len(),
        i < receivers.len() ==> receivers[i].owner == my,
        forall|k: int| 0 <= k < i ==> (#[trigger] receivers[k]).owner != my,
    ensures
        receiver_of(receivers, Some(my)) == if i < receivers.len() {
            Some(receivers[i].receiver)
        } else {
            None
        },
        receiver_of(receivers, None) is None,
    decreases receivers.len(),
{
    lemma_nobody_owns_nothing(receivers);
    if i > 0 {
        let rest = receivers.drop_first();
        assert(receivers[0].owner != my);
        assert forall|k: int| 0 <= k < i - 1 implies (#[trigger] rest[k]).owner != my by {
            assert(rest[k] == receivers[k + 1]);
        }
        law_first_own_receiver_counts(rest, my, i - 1);
    }
}

/// The oldest value in the ring comes that many before the tail as the ring
/// holds.
pub proof fn law_ring_ends_at_the_tail(tail: u64, buffered: nat)
    ensures
        buffered <= tail ==> oldest_of(tail, buffered) + buffered == tail,
        buffered > tail ==> oldest_of(tail, buffered) == 0,
{
}

/// A receiver's line ends on the value it got last; on the oldest, and marked,
/// if that one was evicted; and on nothing in an empty ring.
pub proof fn law_evicted_values_leave_a_mark(snap: BroadcastSnapshot, rx: RxState)
    requires
        snap.buffer@.len() <= snap.tail,
        rx.next <= snap.tail,
    ensures
        ({
            let (slot, behind) = linked(snap, rx);
            let oldest = snap.tail - snap.buffer@.len();
            let got = if rx.next > 0 {
                rx.next - 1
            } else {
                0
            };
            &&& slot is None <==> snap.buffer@.len() == 0
            &&& behind <==> snap.buffer@.len() > 0 && got < oldest
            &&& behind ==> slot == Some(0int)
            &&& slot is Some && !behind ==> slot->Some_0 + oldest == got
        }),
{
}

/// The badge tells the pending outcome, or else how much was ever missed.
pub proof fn law_badge_tells_what_was_missed(missed: u64, total: u64)
    ensures
        badge_text(Some(BroadcastError::Lagged(missed)), total) == "lagged "@ + decimal(
            missed as nat,
        ),
        badge_text(Some(BroadcastError::Closed), total) == "closed"@,
        total > 0 ==> badge_text(None, total) == "missed "@ + decimal(total as nat),
        badge_text(None, 0) == Seq::<char>::empty(),
{
}

/// In a single-player game the player presents and owns the host's sender.
pub proof fn law_local_game_is_the_players()
    ensures
        ({
            let game = local_game();
            &&& game.presenter == Some(LOCAL_CONN)
            &&& game.senders.len() == 1
            &&& game.senders[0].conn == BROADCAST_HOST_CONN
            &&& game.senders[0].owner == LOCAL_CONN
            &&& game.receivers.len() == 0
            &&& game.sent.len() == 0
        }),
{
    let fresh = BroadcastGame::fresh();
    assert(fresh.senders[0].conn == BROADCAST_HOST_CONN);
    law_claim_moves_only_the_hosts_handles(fresh, LOCAL_CONN, 0);
}

/// Before anything was heard the page shows a channel of nobody: it differs
/// from a fresh game in the host's sender alone.
pub proof fn law_blank_page_lacks_only_the_host(
    snap: BroadcastSnapshot,
    fresh: BroadcastSnapshot,
)
    requires
        BroadcastGame::fresh().shown_by(fresh),
    ensures
        is_blank(snap) <==> snap.senders@.len() == 0 && snap.buffer@ == fresh.buffer@ && snap.tail
            == fresh.tail && snap.receivers@ == fresh.receivers@ && snap.presenter
            == fresh.presenter,
{
    law_fresh_game_has_the_host(fresh);
    if snap.buffer@.len() == 0 && snap.receivers@.len() == 0 {
        assert(snap.buffer@ =~= fresh.buffer@);
        assert(snap.receivers@ =~= fresh.receivers@);
    }
}

} // verus!

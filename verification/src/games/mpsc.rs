//! The mpsc page: every connected client is a sender drawn as a coloured node,
//! values fly along the arrows, and a full buffer blocks senders until a
//! receive frees a slot.
//!
//! The authority is the last snapshot; every other event is a trigger for an
//! animation and never changes what the channel holds, so a client cannot
//! drift from the server.

use vstd::prelude::*;
use vstd::string::*;

use crate::client::connected;
use crate::deck::GameMode;
use crate::protocol::{
    AppUp, BufferChar, Game, MpscEvent, MpscSnapshot, MpscWire, SenderInfo, MPSC_CAPACITY,
};
use crate::sim::mpsc::{MpscGame, MpscSim};
use crate::sim::LOCAL_CONN;
use crate::text::{decimal, push_decimal};

verus! {

/// A value on its way from a sender to the receiver.
#[derive(Debug, Clone, Copy, PartialEq, Eq, Structural)]
pub struct Flight {
    pub key: u64,
    pub ch: char,
    pub conn: u64,
}

/// What the page knows: the last snapshot, and what is in the air.
#[derive(Debug, Clone, PartialEq)]
pub struct ChannelState {
    pub snap: MpscSnapshot,
    pub flights: Vec<Flight>,
    /// Monotonic flight-key generator; flights are cosmetic.
    pub key: u64,
}

/// Whether a snapshot is that of a channel that nobody has spoken of yet.
pub open spec fn is_blank(snap: MpscSnapshot) -> bool {
    &&& snap.senders@.len() == 0
    &&& snap.buffer@.len() == 0
    &&& snap.blocked_sends@.len() == 0
    &&& snap.in_flight == 0
    &&& !snap.waiting_receive
    &&& snap.last_received is None
}

/// The snapshot of a channel that nobody has spoken of yet.
pub fn empty_snapshot() -> (snap: MpscSnapshot)
    ensures
        is_blank(snap),
{
    MpscSnapshot {
        senders: Vec::new(),
        buffer: Vec::new(),
        blocked_sends: Vec::new(),
        in_flight: 0,
        waiting_receive: false,
        last_received: None,
    }
}

/// The flights that a landing of `ch` from `conn` leaves in the air.
pub open spec fn still_aloft(flights: Seq<Flight>, conn: u64, ch: char) -> Seq<Flight>
    decreases flights.len(),
{
    if flights.len() == 0 {
        Seq::empty()
    } else {
        let before = still_aloft(flights.drop_last(), conn, ch);
        let last = flights.last();
        if last.conn == conn && last.ch == ch {
            before
        } else {
            before.push(last)
        }
    }
}

/// What an event does to the flights and to the key generator.
pub open spec fn flown(flights: Seq<Flight>, key: u64, event: MpscEvent) -> (Seq<Flight>, u64) {
    match event {
        MpscEvent::InFlight { conn, ch } => {
            let next = (key + 1) as u64;
            (flights.push(Flight { key: next, ch, conn }), next)
        },
        MpscEvent::Consumed { conn, ch } => (still_aloft(flights, conn, ch), key),
        _ => (flights, key),
    }
}

/// What several events do, one after the other.
pub open spec fn all_flown(flights: Seq<Flight>, key: u64, events: Seq<MpscEvent>) -> (
    Seq<Flight>,
    u64,
)
    decreases events.len(),
{
    if events.len() == 0 {
        (flights, key)
    } else {
        let (before, used) = all_flown(flights, key, events.drop_last());
        flown(before, used, events.last())
    }
}

impl ChannelState {
    /// A page that shows `snap`, with nothing in the air.
    pub fn new(snap: MpscSnapshot) -> (state: Self)
        ensures
            state.snap == snap,
            state.flights@.len() == 0,
            state.key == 0,
    {
        ChannelState { snap, flights: Vec::new(), key: 0 }
    }

    /// Show another snapshot; what is in the air stays there.
    pub fn set_snapshot(&mut self, snap: MpscSnapshot)
        ensures
            final(self).snap == snap,
            final(self).flights == old(self).flights,
            final(self).key == old(self).key,
    {
        self.snap = snap;
    }

    fn land(&mut self, conn: u64, ch: char)
        ensures
            final(self).snap == old(self).snap,
            final(self).key == old(self).key,
            final(self).flights@ == still_aloft(old(self).flights@, conn, ch),
    {
        let ghost before = self.flights@;
        let mut kept: Vec<Flight> = Vec::new();
        let mut i: usize = 0;
        while i < self.flights.len()
            invariant
                i <= self.flights@.len(),
                self.flights@ == before,
                self.snap == old(self).snap,
                self.key == old(self).key,
                kept@ == still_aloft(before.take(i as int), conn, ch),
            decreases self.flights@.len() - i,
        {
            let flight = self.flights[i];
            assert(before.take(i + 1).drop_last() =~= before.take(i as int));
            if flight.conn != conn || flight.ch != ch {
                kept.push(flight);
            }
            i = i + 1;
        }
        assert(before.take(i as int) =~= before);
        self.flights = kept;
    }

    /// An event arrived. A snapshot replaces what is shown; a value takes off
    /// or lands; joins and leaves are covered by the snapshot that follows.
    pub fn apply(&mut self, event: MpscEvent)
        requires
            old(self).key < u64::MAX,
        ensures
            (final(self).flights@, final(self).key) == flown(
                old(self).flights@,
                old(self).key,
                event,
            ),
            final(self).snap == match event {
                MpscEvent::Snapshot { state } => state,
                _ => old(self).snap,
            },
    {
        match event {
            MpscEvent::Snapshot { state } => {
                self.snap = state;
            },
            MpscEvent::InFlight { conn, ch } => {
                self.key = self.key + 1;
                let key: u64 = self.key;
                self.flights.push(Flight { key, ch, conn });
            },
            MpscEvent::Consumed { conn, ch } => {
                self.land(conn, ch);
            },
            MpscEvent::Hello { .. } | MpscEvent::SenderJoined { .. } | MpscEvent::SenderLeft {
                ..
            } => {},
        }
    }

    fn animate(&mut self, events: &Vec<MpscEvent>)
        requires
            old(self).key + events@.len() <= u64::MAX,
        ensures
            (final(self).flights@, final(self).key) == all_flown(
                old(self).flights@,
                old(self).key,
                events@,
            ),
            final(self).snap == old(self).snap,
            final(self).key <= old(self).key + events@.len(),
    {
        let ghost flights = self.flights@;
        let ghost key = self.key;
        let mut i: usize = 0;
        assert(events@.take(0) =~= Seq::empty());
        while i < events.len()
            invariant
                i <= events@.len(),
                key + events@.len() <= u64::MAX,
                self.key <= key + i,
                self.snap == old(self).snap,
                (self.flights@, self.key) == all_flown(flights, key, events@.take(i as int)),
            decreases events@.len() - i,
        {
            assert(events@.take(i + 1).drop_last() =~= events@.take(i as int));
            match &events[i] {
                MpscEvent::InFlight { conn, ch } => {
                    self.key = self.key + 1;
                    let key: u64 = self.key;
                    self.flights.push(Flight { key, ch: *ch, conn: *conn });
                },
                MpscEvent::Consumed { conn, ch } => {
                    self.land(*conn, *ch);
                },
                _ => {},
            }
            i = i + 1;
        }
        assert(events@.take(i as int) =~= events@);
    }
}

/// The single-player game: one sim, one handle to send from.
pub open spec fn local_game(flight_ms: u64) -> MpscGame {
    MpscGame::fresh(flight_ms as nat).join(LOCAL_CONN, LOCAL_CONN).0
}

/// The sim of a single-player game.
pub fn local_sim(flight_ms: u64) -> (sim: MpscSim)
    ensures
        sim.wf(),
        sim@ == local_game(flight_ms),
{
    let mut sim = MpscSim::new(flight_ms);
    sim.add_sender(LOCAL_CONN, LOCAL_CONN);
    sim
}

/// A command in single-player mode, against the sim in the browser: what the
/// server's actor would have broadcast is applied at once.
pub fn dispatch_local(sim: &mut MpscSim, chan: &mut ChannelState, wire: &MpscWire, now_ms: u64)
    requires
        old(sim).wf(),
        old(sim)@.has_room(),
        now_ms + old(sim)@.flight_ms <= u64::MAX,
        ({
            let (sent, events) = (MpscGame { now: now_ms as nat, ..old(sim)@ }).step(
                *wire,
                LOCAL_CONN,
            );
            old(chan).key + events.len() + sent.land().1.len() <= u64::MAX
        }),
    ensures
        final(sim).wf(),
        ({
            let (sent, events) = (MpscGame { now: now_ms as nat, ..old(sim)@ }).step(
                *wire,
                LOCAL_CONN,
            );
            let (landed, later) = sent.land();
            let (flights, key) = all_flown(old(chan).flights@, old(chan).key, events);
            &&& final(sim)@ == landed
            &&& landed.shown_by(final(chan).snap)
            &&& (final(chan).flights@, final(chan).key) == all_flown(flights, key, later)
        }),
{
    sim.sync_now(now_ms);
    let events = sim.handle(wire, LOCAL_CONN);
    chan.animate(&events);
    let later = sim.poll_due();
    chan.animate(&later);
    chan.set_snapshot(sim.snapshot());
}

/// The clock moved on in single-player mode: flights that are over land.
pub fn tick_local(sim: &mut MpscSim, chan: &mut ChannelState, now_ms: u64)
    requires
        old(sim).wf(),
        now_ms + old(sim)@.flight_ms <= u64::MAX,
        old(chan).key + (MpscGame { now: now_ms as nat, ..old(sim)@ }).land().1.len() <= u64::MAX,
    ensures
        final(sim).wf(),
        ({
            let (landed, events) = (MpscGame { now: now_ms as nat, ..old(sim)@ }).land();
            &&& final(sim)@ == landed
            &&& (final(chan).flights@, final(chan).key) == all_flown(
                old(chan).flights@,
                old(chan).key,
                events,
            )
            &&& if events.len() > 0 {
                landed.shown_by(final(chan).snap)
            } else {
                final(chan).snap == old(chan).snap
            }
        }),
{
    sim.sync_now(now_ms);
    let events = sim.poll_due();
    chan.animate(&events);
    if events.len() > 0 {
        chan.set_snapshot(sim.snapshot());
    }
}

/// The letters typed beside the handles, at most one for each.
pub open spec fn without_draft(drafts: Seq<(u64, char)>, sender: u64) -> Seq<(u64, char)>
    decreases drafts.len(),
{
    if drafts.len() == 0 {
        Seq::empty()
    } else {
        let before = without_draft(drafts.drop_last(), sender);
        if drafts.last().0 == sender {
            before
        } else {
            before.push(drafts.last())
        }
    }
}

/// The first letter typed beside `sender`.
pub open spec fn draft_of(drafts: Seq<(u64, char)>, sender: u64) -> Option<char>
    decreases drafts.len(),
{
    if drafts.len() == 0 {
        None
    } else if drafts[0].0 == sender {
        Some(drafts[0].1)
    } else {
        draft_of(drafts.drop_first(), sender)
    }
}

fn find_draft(drafts: &Vec<(u64, char)>, sender: u64, from: usize) -> (draft: Option<char>)
    requires
        from <= drafts@.len(),
    ensures
        draft == draft_of(drafts@.skip(from as int), sender),
    decreases drafts@.len() - from,
{
    let ghost rest = drafts@.skip(from as int);
    if from == drafts.len() {
        return None;
    }
    if drafts[from].0 == sender {
        return Some(drafts[from].1);
    }
    assert(rest.drop_first() =~= drafts@.skip(from + 1));
    find_draft(drafts, sender, from + 1)
}

/// Type a letter beside `sender`, or take it back.
pub fn set_draft(drafts: &mut Vec<(u64, char)>, sender: u64, ch: Option<char>)
    ensures
        final(drafts)@ == match ch {
            Some(ch) => without_draft(old(drafts)@, sender).push((sender, ch)),
            None => without_draft(old(drafts)@, sender),
        },
{
    let ghost before = drafts@;
    let mut kept: Vec<(u64, char)> = Vec::new();
    let mut i: usize = 0;
    while i < drafts.len()
        invariant
            i <= drafts@.len(),
            drafts@ == before,
            kept@ == without_draft(before.take(i as int), sender),
        decreases drafts@.len() - i,
    {
        let draft = drafts[i];
        assert(before.take(i + 1).drop_last() =~= before.take(i as int));
        if draft.0 != sender {
            kept.push(draft);
        }
        i = i + 1;
    }
    assert(before.take(i as int) =~= before);
    match ch {
        Some(ch) => kept.push((sender, ch)),
        None => {},
    }
    *drafts = kept;
}

/// The send button beside `sender`: what to send, which empties the draft;
/// nothing without one.
pub fn send_from(drafts: &mut Vec<(u64, char)>, sender: u64) -> (wire: Option<MpscWire>)
    ensures
        match draft_of(old(drafts)@, sender) {
            Some(ch) => {
                &&& wire == Some(MpscWire::Send { conn: sender, ch })
                &&& final(drafts)@ == without_draft(old(drafts)@, sender)
            },
            None => {
                &&& wire is None
                &&& final(drafts)@ == old(drafts)@
            },
        },
{
    assert(drafts@.skip(0) =~= drafts@);
    match find_draft(drafts, sender, 0) {
        Some(ch) => {
            set_draft(drafts, sender, None);
            Some(MpscWire::Send { conn: sender, ch })
        },
        None => None,
    }
}

/// The clone button: alone, the page picks the fresh handle's id; in a room the
/// server does.
pub fn clone_wire(mode: GameMode, next_local: u64) -> (wire: MpscWire)
    ensures
        wire == (MpscWire::CloneSender {
            conn: if mode is Local {
                next_local
            } else {
                0
            },
        }),
{
    match mode {
        GameMode::Local => MpscWire::CloneSender { conn: next_local },
        GameMode::Remote => MpscWire::CloneSender { conn: 0 },
    }
}

/// What the restart button does in a room; alone the page starts a fresh sim.
pub fn restart(mode: GameMode, game: Game) -> (ask: Option<AppUp>)
    ensures
        ask == (if mode is Local {
            None
        } else {
            Some(AppUp::Restart { game })
        }),
{
    match mode {
        GameMode::Local => None,
        GameMode::Remote => Some(AppUp::Restart { game }),
    }
}

/// Whether a page asks for the presenter slot: a presenter's does, once it is
/// connected and knows its own id. Alone there is nobody to ask.
pub fn claims_presenter(mode: GameMode, ready: bool, my_conn: Option<u64>, may_present: bool) -> (
    claims: bool)
    ensures
        claims == (mode is Remote && ready && my_conn is Some && may_present),
{
    let remote = match mode {
        GameMode::Remote => true,
        GameMode::Local => false,
    };
    connected(mode, ready) && remote && my_conn.is_some() && may_present
}

/// The first value of `conn` among `values`.
pub open spec fn value_of(values: Seq<BufferChar>, conn: u64) -> Option<char>
    decreases values.len(),
{
    if values.len() == 0 {
        None
    } else if values[0].conn == conn {
        Some(values[0].ch)
    } else {
        value_of(values.drop_first(), conn)
    }
}

/// The first flight of `conn`.
pub open spec fn flight_of(flights: Seq<Flight>, conn: u64) -> Option<char>
    decreases flights.len(),
{
    if flights.len() == 0 {
        None
    } else if flights[0].conn == conn {
        Some(flights[0].ch)
    } else {
        flight_of(flights.drop_first(), conn)
    }
}

/// What a node shows: the value it carries, while a send is parked or in
/// flight; otherwise the handle's name.
pub open spec fn node_label(blocked: Seq<BufferChar>, flights: Seq<Flight>, conn: u64) -> Seq<
    char,
> {
    match (value_of(blocked, conn), flight_of(flights, conn)) {
        (Some(ch), _) => seq![ch],
        (None, Some(ch)) => seq![ch],
        (None, None) => "tx #"@ + decimal(conn as nat),
    }
}

fn find_value(values: &Vec<BufferChar>, conn: u64, from: usize) -> (ch: Option<char>)
    requires
        from <= values@.len(),
    ensures
        ch == value_of(values@.skip(from as int), conn),
    decreases values@.len() - from,
{
    let ghost rest = values@.skip(from as int);
    if from == values.len() {
        return None;
    }
    if values[from].conn == conn {
        return Some(values[from].ch);
    }
    assert(rest.drop_first() =~= values@.skip(from + 1));
    find_value(values, conn, from + 1)
}

fn find_flight(flights: &Vec<Flight>, conn: u64, from: usize) -> (ch: Option<char>)
    requires
        from <= flights@.len(),
    ensures
        ch == flight_of(flights@.skip(from as int), conn),
    decreases flights@.len() - from,
{
    let ghost rest = flights@.skip(from as int);
    if from == flights.len() {
        return None;
    }
    if flights[from].conn == conn {
        return Some(flights[from].ch);
    }
    assert(rest.drop_first() =~= flights@.skip(from + 1));
    find_flight(flights, conn, from + 1)
}

/// What the node of `conn` shows.
pub fn label(state: &ChannelState, conn: u64) -> (label: String)
    ensures
        label@ == node_label(state.snap.blocked_sends@, state.flights@, conn),
{
    assert(state.snap.blocked_sends@.skip(0) =~= state.snap.blocked_sends@);
    assert(state.flights@.skip(0) =~= state.flights@);
    let carried = match find_value(&state.snap.blocked_sends, conn, 0) {
        Some(ch) => Some(ch),
        None => find_flight(&state.flights, conn, 0),
    };
    let mut label = String::new();
    match carried {
        Some(ch) => {
            label.push(ch);
            assert(label@ =~= seq![ch]);
        },
        None => {
            label.append("tx #");
            push_decimal(&mut label, conn);
            assert(label@ =~= "tx #"@ + decimal(conn as nat));
        },
    }
    label
}

/// What a node says about its handle when pointed at.
pub fn node_title(sender: &SenderInfo) -> (title: &'static str)
    ensures
        title@ == (if sender.owner == sender.conn {
            "connected player"@
        } else {
            "cloned sender"@
        }),
{
    if sender.owner == sender.conn {
        "connected player"
    } else {
        "cloned sender"
    }
}

/// The class of a node.
pub fn node_class(sender: &SenderInfo) -> (class: &'static str)
    ensures
        class@ == (if sender.blocked {
            "actor sender-node blocked"@
        } else {
            "actor sender-node"@
        }),
{
    if sender.blocked {
        "actor sender-node blocked"
    } else {
        "actor sender-node"
    }
}

/// The controls beside one of the viewer's own handles.
#[derive(Debug, Clone, Copy, PartialEq, Eq, Structural)]
pub struct ControlsView {
    pub conn: u64,
    pub blocked: bool,
    pub draft: Option<char>,
}

/// The controls beside the handles that `my` owns, in the order of the list. A
/// viewer without an identity owns none: guessing one would show another
/// party's controls as their own.
pub open spec fn controls_of(
    senders: Seq<SenderInfo>,
    drafts: Seq<(u64, char)>,
    my: Option<u64>,
) -> Seq<ControlsView>
    decreases senders.len(),
{
    if senders.len() == 0 {
        Seq::empty()
    } else {
        let before = controls_of(senders.drop_last(), drafts, my);
        let last = senders.last();
        if my == Some(last.owner) {
            before.push(
                ControlsView {
                    conn: last.conn,
                    blocked: last.blocked,
                    draft: draft_of(drafts, last.conn),
                },
            )
        } else {
            before
        }
    }
}

/// The controls beside the viewer's own handles.
pub fn controls(
    senders: &Vec<SenderInfo>,
    drafts: &Vec<(u64, char)>,
    my: Option<u64>,
) -> (controls: Vec<ControlsView>)
    ensures
        controls@ == controls_of(senders@, drafts@, my),
{
    let mut controls: Vec<ControlsView> = Vec::new();
    let mut i: usize = 0;
    assert(drafts@.skip(0) =~= drafts@);
    while i < senders.len()
        invariant
            i <= senders@.len(),
            drafts@.skip(0) == drafts@,
            controls@ == controls_of(senders@.take(i as int), drafts@, my),
        decreases senders@.len() - i,
    {
        let sender = senders[i];
        assert(senders@.take(i + 1).drop_last() =~= senders@.take(i as int));
        let mine = match my {
            Some(my) => sender.owner == my,
            None => false,
        };
        if mine {
            let draft = find_draft(drafts, sender.conn, 0);
            controls.push(ControlsView { conn: sender.conn, blocked: sender.blocked, draft });
        }
        i = i + 1;
    }
    assert(senders@.take(i as int) =~= senders@);
    controls
}

/// How many handles are blocked.
pub open spec fn blocked_among(senders: Seq<SenderInfo>) -> nat
    decreases senders.len(),
{
    if senders.len() == 0 {
        0
    } else {
        blocked_among(senders.drop_last()) + (if senders.last().blocked {
            1nat
        } else {
            0nat
        })
    }
}

/// How many handles are blocked.
pub fn blocked_count(senders: &Vec<SenderInfo>) -> (count: usize)
    ensures
        count == blocked_among(senders@),
{
    let mut count: usize = 0;
    let mut i: usize = 0;
    while i < senders.len()
        invariant
            i <= senders@.len(),
            count <= i,
            count == blocked_among(senders@.take(i as int)),
        decreases senders@.len() - i,
    {
        assert(senders@.take(i + 1).drop_last() =~= senders@.take(i as int));
        if senders[i].blocked {
            count = count + 1;
        }
        i = i + 1;
    }
    assert(senders@.take(i as int) =~= senders@);
    count
}

/// The note under the diagram: a waiting receiver first, then blocked senders.
pub open spec fn footer(waiting: bool, senders: Seq<SenderInfo>) -> Seq<char> {
    if waiting {
        "receiver waiting…"@
    } else if blocked_among(senders) > 0 {
        decimal(blocked_among(senders)) + " sender(s) blocked"@
    } else {
        Seq::empty()
    }
}

/// The note under the diagram; empty if there is nothing to say.
pub fn footer_note(snap: &MpscSnapshot) -> (note: String)
    ensures
        note@ == footer(snap.waiting_receive, snap.senders@),
{
    let mut note = String::new();
    if snap.waiting_receive {
        note.append("receiver waiting…");
        assert(note@ =~= "receiver waiting…"@);
        return note;
    }
    let blocked: usize = blocked_count(&snap.senders);
    if blocked > 0 {
        push_decimal(&mut note, blocked as u64);
        note.append(" sender(s) blocked");
        assert(note@ =~= decimal(blocked as nat) + " sender(s) blocked"@);
    } else {
        assert(note@ =~= Seq::empty());
    }
    note
}

/// How the note under the diagram is drawn.
pub fn footer_class(snap: &MpscSnapshot) -> (class: &'static str)
    ensures
        class@ == (if snap.waiting_receive {
            "note-pill waiting"@
        } else if blocked_among(snap.senders@) > 0 {
            "note-pill blocked"@
        } else {
            ""@
        }),
{
    if snap.waiting_receive {
        "note-pill waiting"
    } else if blocked_count(&snap.senders) > 0 {
        "note-pill blocked"
    } else {
        ""
    }
}

/// How full the channel is: what is buffered together with what is in the air.
pub fn occupancy(snap: &MpscSnapshot) -> (text: String)
    requires
        snap.buffer@.len() + snap.in_flight <= usize::MAX,
    ensures
        text@ == "buffer "@ + decimal((snap.buffer@.len() + snap.in_flight) as nat) + " / "@
            + decimal(MPSC_CAPACITY as nat),
{
    let mut text = "buffer ".to_owned();
    push_decimal(&mut text, (snap.buffer.len() + snap.in_flight) as u64);
    text.append(" / ");
    push_decimal(&mut text, MPSC_CAPACITY as u64);
    text
}

/// How many slots of the buffer are drawn empty.
pub fn empty_slots(snap: &MpscSnapshot) -> (count: usize)
    ensures
        count == (if snap.buffer@.len() < MPSC_CAPACITY {
            MPSC_CAPACITY - snap.buffer@.len()
        } else {
            0
        }),
{
    if snap.buffer.len() < MPSC_CAPACITY {
        MPSC_CAPACITY - snap.buffer.len()
    } else {
        0
    }
}

/// What the receiver got last.
pub fn received_label(last: Option<BufferChar>) -> (text: String)
    ensures
        text@ == match last {
            Some(value) => "→ "@ + seq![value.ch],
            None => "→ –"@,
        },
{
    match last {
        Some(value) => {
            let mut text = "→ ".to_owned();
            text.push(value.ch);
            assert(text@ =~= "→ "@ + seq![value.ch]);
            text
        },
        None => "→ –".to_owned(),
    }
}

/// The class of the receiver.
pub fn receiver_class(waiting: bool) -> (class: &'static str)
    ensures
        class@ == (if waiting {
            "actor receiver waiting"@
        } else {
            "actor receiver"@
        }),
{
    if waiting {
        "actor receiver waiting"
    } else {
        "actor receiver"
    }
}

/// Position of the handle `conn` in the list, from which its place on the page
/// follows.
pub fn position(senders: &Vec<SenderInfo>, conn: u64) -> (at: Option<usize>)
    ensures
        match at {
            Some(at) => {
                &&& at < senders@.len()
                &&& senders@[at as int].conn == conn
                &&& forall|j: int| 0 <= j < at ==> (#[trigger] senders@[j]).conn != conn
            },
            None => forall|j: int|
                0 <= j < senders@.len() ==> (#[trigger] senders@[j]).conn != conn,
        },
{
    let mut i: usize = 0;
    while i < senders.len()
        invariant
            i <= senders@.len(),
            forall|j: int| 0 <= j < i ==> (#[trigger] senders@[j]).conn != conn,
        decreases senders@.len() - i,
    {
        if senders[i].conn == conn {
            return Some(i);
        }
        i = i + 1;
    }
    None
}

/// A client cannot drift: no event but a snapshot changes what it shows.
pub proof fn law_only_snapshots_change_what_is_shown(
    flights: Seq<Flight>,
    key: u64,
    state: MpscSnapshot,
)
    ensures
        flown(flights, key, MpscEvent::Snapshot { state }) == (flights, key),
{
}

/// What took off lands: a flight announced and then consumed leaves the air as
/// it was, unless an equal value was up there already.
pub proof fn law_what_takes_off_lands(flights: Seq<Flight>, key: u64, conn: u64, ch: char)
    requires
        forall|i: int|
            0 <= i < flights.len() ==> !((#[trigger] flights[i]).conn == conn && flights[i].ch
                == ch),
    ensures
        ({
            let (up, used) = flown(flights, key, MpscEvent::InFlight { conn, ch });
            flown(up, used, MpscEvent::Consumed { conn, ch }).0 == flights
        }),
{
    let (up, used) = flown(flights, key, MpscEvent::InFlight { conn, ch });
    assert(up.drop_last() =~= flights);
    lemma_all_stay(flights, conn, ch);
}

proof fn lemma_all_stay(flights: Seq<Flight>, conn: u64, ch: char)
    requires
        forall|i: int|
            0 <= i < flights.len() ==> !((#[trigger] flights[i]).conn == conn && flights[i].ch
                == ch),
    ensures
        still_aloft(flights, conn, ch) == flights,
    decreases flights.len(),
{
    if flights.len() > 0 {
        lemma_all_stay(flights.drop_last(), conn, ch);
        assert(!(flights[flights.len() - 1].conn == conn && flights[flights.len() - 1].ch == ch));
        assert(still_aloft(flights, conn, ch) =~= flights);
    }
}

/// A take-off puts one more flight in the air, under a key that none had; a
/// landing takes the flights of that value away and no other.
pub proof fn law_flights_follow_the_events(
    flights: Seq<Flight>,
    key: u64,
    conn: u64,
    ch: char,
)
    requires
        key < u64::MAX,
    ensures
        ({
            let (up, used) = flown(flights, key, MpscEvent::InFlight { conn, ch });
            let (down, kept) = flown(flights, key, MpscEvent::Consumed { conn, ch });
            &&& up.len() == flights.len() + 1
            &&& up.drop_last() == flights
            &&& up.last() == Flight { key: used, ch, conn }
            &&& used == key + 1
            &&& kept == key
            &&& down == flights.filter(
                |flight: Flight| flight.conn != conn || flight.ch != ch,
            )
        }),
{
    let up = flown(flights, key, MpscEvent::InFlight { conn, ch }).0;
    assert(up.drop_last() =~= flights);
    lemma_aloft_is_a_filter(flights, conn, ch);
}

/// What stays aloft is what another value is.
proof fn lemma_aloft_is_a_filter(flights: Seq<Flight>, conn: u64, ch: char)
    ensures
        still_aloft(flights, conn, ch) == flights.filter(
            |flight: Flight| flight.conn != conn || flight.ch != ch,
        ),
    decreases flights.len(),
{
    reveal(Seq::filter);
    if flights.len() > 0 {
        lemma_aloft_is_a_filter(flights.drop_last(), conn, ch);
    } else {
        assert(still_aloft(flights, conn, ch) =~= flights.filter(
            |flight: Flight| flight.conn != conn || flight.ch != ch,
        ));
    }
}

/// Events are followed one after the other.
pub proof fn law_events_are_followed_in_order(
    flights: Seq<Flight>,
    key: u64,
    front: Seq<MpscEvent>,
    back: Seq<MpscEvent>,
)
    ensures
        ({
            let (aloft, used) = all_flown(flights, key, front);
            all_flown(flights, key, front + back) == all_flown(aloft, used, back)
        }),
    decreases back.len(),
{
    if back.len() == 0 {
        assert(front + back =~= front);
    } else {
        assert((front + back).drop_last() =~= front + back.drop_last());
        law_events_are_followed_in_order(flights, key, front, back.drop_last());
    }
}

/// A handle has the draft that was set for it last, none once it was taken
/// back, and other handles keep theirs.
pub proof fn law_each_handle_has_its_draft(
    drafts: Seq<(u64, char)>,
    sender: u64,
    ch: char,
    other: u64,
)
    requires
        other != sender,
    ensures
        draft_of(without_draft(drafts, sender), sender) is None,
        draft_of(without_draft(drafts, sender).push((sender, ch)), sender) == Some(ch),
        draft_of(without_draft(drafts, sender), other) == draft_of(drafts, other),
        draft_of(without_draft(drafts, sender).push((sender, ch)), other) == draft_of(
            drafts,
            other,
        ),
    decreases drafts.len(),
{
    let rest = without_draft(drafts, sender);
    lemma_draft_of_pushed(rest, (sender, ch), sender);
    lemma_draft_of_pushed(rest, (sender, ch), other);
    if drafts.len() > 0 {
        let front = drafts.drop_last();
        law_each_handle_has_its_draft(front, sender, ch, other);
        assert(drafts =~= front.push(drafts.last()));
        lemma_draft_of_pushed(front, drafts.last(), other);
        lemma_draft_of_pushed(without_draft(front, sender), drafts.last(), sender);
        lemma_draft_of_pushed(without_draft(front, sender), drafts.last(), other);
    }
}

/// A draft at the end counts only for who has none before.
proof fn lemma_draft_of_pushed(drafts: Seq<(u64, char)>, draft: (u64, char), sender: u64)
    ensures
        draft_of(drafts.push(draft), sender) == if draft_of(drafts, sender) is Some {
            draft_of(drafts, sender)
        } else if draft.0 == sender {
            Some(draft.1)
        } else {
            None
        },
    decreases drafts.len(),
{
    if drafts.len() > 0 {
        assert(drafts.push(draft).drop_first() =~= drafts.drop_first().push(draft));
        lemma_draft_of_pushed(drafts.drop_first(), draft, sender);
    } else {
        assert(drafts.push(draft).drop_first() =~= Seq::<(u64, char)>::empty());
        assert(draft_of(drafts.push(draft).drop_first(), sender) is None);
    }
}

/// A node shows the value that blocks it, else the one it has in the air, else
/// its own name.
pub proof fn law_node_shows_its_value(
    blocked: Seq<BufferChar>,
    flights: Seq<Flight>,
    conn: u64,
    i: int,
)
    ensures
        0 <= i < blocked.len() && blocked[i].conn == conn && (forall|k: int|
            0 <= k < i ==> (#[trigger] blocked[k]).conn != conn) ==> node_label(
            blocked,
            flights,
            conn,
        ) == seq![blocked[i].ch],
        0 <= i < flights.len() && flights[i].conn == conn && (forall|k: int|
            0 <= k < i ==> (#[trigger] flights[k]).conn != conn) && (forall|k: int|
            0 <= k < blocked.len() ==> (#[trigger] blocked[k]).conn != conn) ==> node_label(
            blocked,
            flights,
            conn,
        ) == seq![flights[i].ch],
        (forall|k: int| 0 <= k < flights.len() ==> (#[trigger] flights[k]).conn != conn)
            && (forall|k: int| 0 <= k < blocked.len() ==> (#[trigger] blocked[k]).conn != conn)
            ==> node_label(blocked, flights, conn) == "tx #"@ + decimal(conn as nat),
{
    if 0 <= i < blocked.len() && blocked[i].conn == conn && (forall|k: int|
        0 <= k < i ==> (#[trigger] blocked[k]).conn != conn) {
        lemma_first_value(blocked, conn, i);
    }
    if forall|k: int| 0 <= k < blocked.len() ==> (#[trigger] blocked[k]).conn != conn {
        lemma_first_value(blocked, conn, blocked.len() as int);
    }
    if 0 <= i < flights.len() && flights[i].conn == conn && (forall|k: int|
        0 <= k < i ==> (#[trigger] flights[k]).conn != conn) {
        lemma_first_flight(flights, conn, i);
    }
    if forall|k: int| 0 <= k < flights.len() ==> (#[trigger] flights[k]).conn != conn {
        lemma_first_flight(flights, conn, flights.len() as int);
    }
}

/// The first value of a handle is found, where there is one.
proof fn lemma_first_value(values: Seq<BufferChar>, conn: u64, i: int)
    requires
        0 <= i <= values.len(),
        i < values.len() ==> values[i].conn == conn,
        forall|k: int| 0 <= k < i ==> (#[trigger] values[k]).conn != conn,
    ensures
        value_of(values, conn) == if i < values.len() {
            Some(values[i].ch)
        } else {
            None
        },
    decreases values.len(),
{
    if i > 0 {
        let rest = values.drop_first();
        assert(values[0].conn != conn);
        assert forall|k: int| 0 <= k < i - 1 implies (#[trigger] rest[k]).conn != conn by {
            assert(rest[k] == values[k + 1]);
        }
        lemma_first_value(rest, conn, i - 1);
    }
}

/// The first flight of a handle is found, where there is one.
proof fn lemma_first_flight(flights: Seq<Flight>, conn: u64, i: int)
    requires
        0 <= i <= flights.len(),
        i < flights.len() ==> flights[i].conn == conn,
        forall|k: int| 0 <= k < i ==> (#[trigger] flights[k]).conn != conn,
    ensures
        flight_of(flights, conn) == if i < flights.len() {
            Some(flights[i].ch)
        } else {
            None
        },
    decreases flights.len(),
{
    if i > 0 {
        let rest = flights.drop_first();
        assert(flights[0].conn != conn);
        assert forall|k: int| 0 <= k < i - 1 implies (#[trigger] rest[k]).conn != conn by {
            assert(rest[k] == flights[k + 1]);
        }
        lemma_first_flight(rest, conn, i - 1);
    }
}

/// The viewer has controls for the handles they own, in order, each with its
/// own draft, and for no other.
pub proof fn law_controls_are_the_owners(
    senders: Seq<SenderInfo>,
    drafts: Seq<(u64, char)>,
    my: u64,
)
    ensures
        controls_of(senders, drafts, Some(my)) == senders.filter(
            |sender: SenderInfo| sender.owner == my,
        ).map_values(
            |sender: SenderInfo|
                ControlsView {
                    conn: sender.conn,
                    blocked: sender.blocked,
                    draft: draft_of(drafts, sender.conn),
                },
        ),
        controls_of(senders, drafts, None).len() == 0,
    decreases senders.len(),
{
    reveal(Seq::filter);
    let owned = |sender: SenderInfo| sender.owner == my;
    let shown = |sender: SenderInfo|
        ControlsView {
            conn: sender.conn,
            blocked: sender.blocked,
            draft: draft_of(drafts, sender.conn),
        };
    if senders.len() > 0 {
        let front = senders.drop_last();
        law_controls_are_the_owners(front, drafts, my);
        if senders.last().owner == my {
            assert(front.filter(owned).push(senders.last()).map_values(shown) =~= front.filter(
                owned,
            ).map_values(shown).push(shown(senders.last())));
        }
    } else {
        assert(senders.filter(owned).map_values(shown) =~= Seq::<ControlsView>::empty());
    }
}

/// The footer says that the receiver waits, or else how many are blocked, and
/// nothing when neither is the case.
pub proof fn law_footer_counts_the_blocked(waiting: bool, senders: Seq<SenderInfo>)
    ensures
        ({
            let blocked = senders.filter(|sender: SenderInfo| sender.blocked).len();
            &&& blocked_among(senders) == blocked
            &&& waiting ==> footer(waiting, senders) == "receiver waiting…"@
            &&& !waiting && blocked > 0 ==> footer(waiting, senders) == decimal(blocked)
                + " sender(s) blocked"@
            &&& !waiting && blocked == 0 ==> footer(waiting, senders) == Seq::<char>::empty()
        }),
    decreases senders.len(),
{
    reveal(Seq::filter);
    if senders.len() > 0 {
        law_footer_counts_the_blocked(waiting, senders.drop_last());
    }
}

/// A single-player game starts with the player's own handle and nothing sent.
pub proof fn law_local_game_has_one_player(flight_ms: u64)
    ensures
        ({
            let game = local_game(flight_ms);
            &&& game.flight_ms == flight_ms
            &&& game.handles.len() == 1
            &&& game.handles[0].conn == LOCAL_CONN
            &&& game.handles[0].owner == LOCAL_CONN
            &&& game.line.len() == 0
            &&& game.pending_receives == 0
            &&& game.landings.len() == 0
            &&& game.last_received is None
        }),
{
}

/// What is shown before anything was heard is what a fresh game shows, and
/// nothing else is.
pub proof fn law_blank_page_shows_a_fresh_game(snap: MpscSnapshot, flight_ms: u64)
    ensures
        is_blank(snap) <==> MpscGame::fresh(flight_ms as nat).shown_by(snap),
{
    let fresh = MpscGame::fresh(flight_ms as nat);
    assert(fresh.sender_infos() =~= Seq::empty());
    assert(fresh.landed() =~= Seq::empty());
    assert(fresh.blocked() =~= Seq::empty());
    if is_blank(snap) {
        assert(snap.senders@ =~= fresh.sender_infos());
        assert(snap.buffer@ =~= fresh.landed());
        assert(snap.blocked_sends@ =~= fresh.blocked());
    }
}

} // verus!

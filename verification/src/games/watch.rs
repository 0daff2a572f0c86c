//! The watch page: one sender (the presenter), a create phase for the initial
//! value, and receivers that anybody may subscribe. A receiver holds the latest
//! value invisibly; looking inside reveals it and holds the presenter's send
//! back until the last look is over.
//!
//! The authority is the last snapshot; every other event only starts an
//! animation, so a client cannot drift from the server.

use vstd::prelude::*;
use vstd::string::*;

use crate::deck::GameMode;
use crate::protocol::{RxInfo, WatchEvent, WatchSnapshot, WatchWire, WATCH_MAX_RX};
use crate::sim::watch::{WatchGame, WatchSim};
use crate::sim::LOCAL_CONN;
use crate::text::{chars_of, decimal, push_decimal};

verus! {

/// What a flight animates: a changed value fanning out from the cell, or a gray
/// transfer of a borrow or a subscription.
#[derive(Debug, Clone, Copy, PartialEq, Eq, Structural)]
pub enum FlightKind {
    Value,
    Borrow,
}

/// A value on its way from the cell to a receiver.
#[derive(Debug, Clone, Copy, PartialEq, Eq, Structural)]
pub struct Flight {
    pub key: u64,
    pub kind: FlightKind,
    pub rx: u64,
    pub ch: Option<char>,
}

/// What the page knows: the last snapshot, and what is in the air.
#[derive(Debug, Clone, PartialEq)]
pub struct WatchState {
    pub snap: WatchSnapshot,
    pub flights: Vec<Flight>,
    /// Monotonic flight-key generator; flights are cosmetic.
    pub key: u64,
}

/// Whether a snapshot is that of a channel that nobody has spoken of yet.
pub open spec fn is_blank(snap: WatchSnapshot) -> bool {
    &&& !snap.created
    &&& snap.value is None
    &&& snap.version == 0
    &&& snap.pending_send is None
    &&& snap.presenter is None
    &&& snap.receivers@.len() == 0
}

/// The snapshot of a channel that nobody has spoken of yet.
pub fn empty_snapshot() -> (snap: WatchSnapshot)
    ensures
        is_blank(snap),
{
    WatchSnapshot {
        created: false,
        value: None,
        version: 0,
        pending_send: None,
        presenter: None,
        receivers: Vec::new(),
    }
}

/// The flights that an event starts, under keys counted on from `key`: a change
/// reaches every receiver, the others a single one.
pub open spec fn launched(snap: WatchSnapshot, key: u64, event: WatchEvent) -> Seq<Flight> {
    match event {
        WatchEvent::Changed { ch, .. } => Seq::new(
            snap.receivers@.len(),
            |i: int|
                Flight {
                    key: (key + 1 + i) as u64,
                    kind: FlightKind::Value,
                    rx: snap.receivers@[i].id,
                    ch: Some(ch),
                },
        ),
        // a fresh receiver instantly starts at the current value
        WatchEvent::ReceiverAdded { id, .. } => seq![
            Flight { key: (key + 1) as u64, kind: FlightKind::Borrow, rx: id, ch: snap.value },
        ],
        // a stale changed() completes at once: the value reaches that one
        // receiver without any send happening
        WatchEvent::ChangedImmediately { rx } => seq![
            Flight { key: (key + 1) as u64, kind: FlightKind::Value, rx, ch: snap.value },
        ],
        WatchEvent::BorrowFlight { rx } => seq![
            Flight { key: (key + 1) as u64, kind: FlightKind::Borrow, rx, ch: snap.value },
        ],
        _ => Seq::empty(),
    }
}

/// The flights without the one under `key`.
pub open spec fn without_key(flights: Seq<Flight>, key: u64) -> Seq<Flight>
    decreases flights.len(),
{
    if flights.len() == 0 {
        Seq::empty()
    } else {
        let before = without_key(flights.drop_last(), key);
        if flights.last().key == key {
            before
        } else {
            before.push(flights.last())
        }
    }
}

/// What several events do to the page, one after the other.
pub open spec fn all_launched(
    snap: WatchSnapshot,
    flights: Seq<Flight>,
    key: u64,
    events: Seq<WatchEvent>,
) -> (Seq<Flight>, u64)
    decreases events.len(),
{
    if events.len() == 0 {
        (flights, key)
    } else {
        let (before, used) = all_launched(snap, flights, key, events.drop_last());
        let started = launched(snap, used, events.last());
        (before + started, (used + started.len()) as u64)
    }
}

impl WatchState {
    /// A page that shows `snap`, with nothing in the air.
    pub fn new(snap: WatchSnapshot) -> (state: Self)
        ensures
            state.snap == snap,
            state.flights@.len() == 0,
            state.key == 0,
    {
        WatchState { snap, flights: Vec::new(), key: 0 }
    }

    /// Show another snapshot; what is in the air stays there.
    pub fn set_snapshot(&mut self, snap: WatchSnapshot)
        ensures
            final(self).snap == snap,
            final(self).flights == old(self).flights,
            final(self).key == old(self).key,
    {
        self.snap = snap;
    }

    /// A key that no flight and no badge had before.
    pub fn next_key(&mut self) -> (key: u64)
        requires
            old(self).key < u64::MAX,
        ensures
            key == old(self).key + 1,
            final(self).key == key,
            final(self).snap == old(self).snap,
            final(self).flights == old(self).flights,
    {
        self.key = self.key + 1;
        self.key
    }

    fn push_flight(&mut self, kind: FlightKind, rx: u64, ch: Option<char>)
        requires
            old(self).key < u64::MAX,
        ensures
            final(self).key == old(self).key + 1,
            final(self).snap == old(self).snap,
            final(self).flights@ == old(self).flights@.push(
                Flight { key: (old(self).key + 1) as u64, kind, rx, ch },
            ),
    {
        let key = self.next_key();
        self.flights.push(Flight { key, kind, rx, ch });
    }

    /// An animation ended.
    pub fn remove_flight(&mut self, key: u64)
        ensures
            final(self).snap == old(self).snap,
            final(self).key == old(self).key,
            final(self).flights@ == without_key(old(self).flights@, key),
    {
        let ghost before = self.flights@;
        let mut kept: Vec<Flight> = Vec::new();
        let mut i: usize = 0;
        while i < self.flights.len()
            invariant
                i <= self.flights@.len(),
                self.flights@ == before,
                self.snap == old(self).snap,
                self.key == old(self).key,
                kept@ == without_key(before.take(i as int), key),
            decreases self.flights@.len() - i,
        {
            let flight = self.flights[i];
            assert(before.take(i + 1).drop_last() =~= before.take(i as int));
            if flight.key != key {
                kept.push(flight);
            }
            i = i + 1;
        }
        assert(before.take(i as int) =~= before);
        self.flights = kept;
    }

    fn fan_out(&mut self, ch: char)
        requires
            old(self).key + old(self).snap.receivers@.len() <= u64::MAX,
        ensures
            final(self).snap == old(self).snap,
            final(self).key == old(self).key + old(self).snap.receivers@.len(),
            final(self).flights@ == old(self).flights@ + launched(
                old(self).snap,
                old(self).key,
                WatchEvent::Changed { version: 0, ch },
            ),
    {
        let ghost flights = self.flights@;
        let ghost key = self.key;
        let ghost all = launched(self.snap, key, WatchEvent::Changed { version: 0, ch });
        let mut i: usize = 0;
        assert(flights + all.take(0) =~= flights);
        while i < self.snap.receivers.len()
            invariant
                i <= self.snap.receivers@.len(),
                self.snap == old(self).snap,
                key + self.snap.receivers@.len() <= u64::MAX,
                self.key == key + i,
                all == launched(self.snap, key, WatchEvent::Changed { version: 0, ch }),
                self.flights@ == flights + all.take(i as int),
            decreases self.snap.receivers@.len() - i,
        {
            let rx: u64 = self.snap.receivers[i].id;
            self.push_flight(FlightKind::Value, rx, Some(ch));
            i = i + 1;
            assert(self.flights@ =~= flights + all.take(i as int));
        }
        assert(all.take(i as int) =~= all);
    }

    fn launch(&mut self, event: &WatchEvent)
        requires
            old(self).key + old(self).snap.receivers@.len() < u64::MAX,
        ensures
            final(self).snap == old(self).snap,
            ({
                let started = launched(old(self).snap, old(self).key, *event);
                &&& final(self).flights@ == old(self).flights@ + started
                &&& final(self).key == old(self).key + started.len()
                &&& started.len() <= old(self).snap.receivers@.len() + 1
            }),
    {
        match event {
            WatchEvent::Changed { ch, .. } => {
                self.fan_out(*ch);
            },
            WatchEvent::ReceiverAdded { id, .. } => {
                let value = self.snap.value;
                self.push_flight(FlightKind::Borrow, *id, value);
            },
            WatchEvent::ChangedImmediately { rx } => {
                let value = self.snap.value;
                self.push_flight(FlightKind::Value, *rx, value);
            },
            WatchEvent::BorrowFlight { rx } => {
                let value = self.snap.value;
                self.push_flight(FlightKind::Borrow, *rx, value);
            },
            _ => {},
        }
        assert(self.flights@ =~= old(self).flights@ + launched(
            old(self).snap,
            old(self).key,
            *event,
        ));
    }

    /// An event arrived. A snapshot replaces what is shown; some others start
    /// flights; the rest is covered by the snapshot that follows.
    pub fn apply(&mut self, event: WatchEvent)
        requires
            old(self).key + old(self).snap.receivers@.len() < u64::MAX,
        ensures
            ({
                let started = launched(old(self).snap, old(self).key, event);
                &&& final(self).flights@ == old(self).flights@ + started
                &&& final(self).key == old(self).key + started.len()
            }),
            final(self).snap == match event {
                WatchEvent::Snapshot { state } => state,
                _ => old(self).snap,
            },
    {
        self.launch(&event);
        match event {
            WatchEvent::Snapshot { state } => {
                self.snap = state;
            },
            _ => {},
        }
    }

    fn animate(&mut self, events: &Vec<WatchEvent>)
        requires
            old(self).key + events@.len() * (old(self).snap.receivers@.len() + 1) <= u64::MAX,
        ensures
            (final(self).flights@, final(self).key) == all_launched(
                old(self).snap,
                old(self).flights@,
                old(self).key,
                events@,
            ),
            final(self).snap == old(self).snap,
    {
        let ghost flights = self.flights@;
        let ghost key = self.key;
        let ghost reach = self.snap.receivers@.len() + 1;
        let mut i: usize = 0;
        assert(events@.take(0) =~= Seq::empty());
        assert(0 * reach == 0) by (nonlinear_arith);
        while i < events.len()
            invariant
                i <= events@.len(),
                self.snap == old(self).snap,
                reach == self.snap.receivers@.len() + 1,
                key + events@.len() * reach <= u64::MAX,
                self.key <= key + i * reach,
                (self.flights@, self.key) == all_launched(
                    self.snap,
                    flights,
                    key,
                    events@.take(i as int),
                ),
            decreases events@.len() - i,
        {
            assert(events@.take(i + 1).drop_last() =~= events@.take(i as int));
            assert((i + 1) * reach == i * reach + reach) by (nonlinear_arith);
            assert((i + 1) * reach <= events@.len() * reach) by (nonlinear_arith)
                requires
                    i + 1 <= events@.len(),
                    0 <= reach,
            ;
            self.launch(&events[i]);
            i = i + 1;
        }
        assert(events@.take(i as int) =~= events@);
    }
}

/// The badge that an event flashes.
pub open spec fn badge_text(event: WatchEvent) -> Option<Seq<char>> {
    match event {
        WatchEvent::SameValue => Some("same"@),
        WatchEvent::SendRefused => Some("error"@),
        WatchEvent::SendBlocked => Some("blocked"@),
        _ => None,
    }
}

/// The short notice that an event calls for, if any.
pub fn badge(event: &WatchEvent) -> (text: Option<&'static str>)
    ensures
        match badge_text(*event) {
            Some(shown) => text matches Some(text) && text@ == shown,
            None => text is None,
        },
{
    match event {
        WatchEvent::SameValue => Some("same"),
        WatchEvent::SendRefused => Some("error"),
        WatchEvent::SendBlocked => Some("blocked"),
        _ => None,
    }
}

/// The single-player game: the lone player is the presenter.
pub open spec fn local_game() -> WatchGame {
    WatchGame { presenter: Some(LOCAL_CONN), ..WatchGame::fresh() }
}

/// The sim of a single-player game.
pub fn local_sim() -> (sim: WatchSim)
    ensures
        sim.wf(),
        sim@ == local_game(),
{
    let mut sim = WatchSim::new();
    sim.set_presenter(Some(LOCAL_CONN));
    sim
}

/// A command in single-player mode, against the sim in the browser: what the
/// server's actor would have broadcast is applied at once.
pub fn dispatch_local(sim: &mut WatchSim, chan: &mut WatchState, wire: &WatchWire)
    requires
        old(sim).wf(),
        old(sim)@.has_room(),
        old(chan).key + old(sim)@.step(*wire, LOCAL_CONN).1.len() * (
        old(chan).snap.receivers@.len() + 1) <= u64::MAX,
    ensures
        final(sim).wf(),
        ({
            let (after, events) = old(sim)@.step(*wire, LOCAL_CONN);
            &&& final(sim)@ == after
            &&& after.shown_by(final(chan).snap)
            &&& (final(chan).flights@, final(chan).key) == all_launched(
                old(chan).snap,
                old(chan).flights@,
                old(chan).key,
                events,
            )
        }),
{
    let events = sim.handle(wire, LOCAL_CONN);
    chan.animate(&events);
    chan.set_snapshot(sim.snapshot());
}

/// Whether a character is white space.
pub open spec fn is_space(c: char) -> bool {
    ||| '\u{9}' <= c <= '\u{d}'
    ||| c == ' '
    ||| c == '\u{85}'
    ||| c == '\u{a0}'
    ||| c == '\u{1680}'
    ||| '\u{2000}' <= c <= '\u{200a}'
    ||| c == '\u{2028}'
    ||| c == '\u{2029}'
    ||| c == '\u{202f}'
    ||| c == '\u{205f}'
    ||| c == '\u{3000}'
}

/// The first character of a text that is no white space.
pub open spec fn letter_in(text: Seq<char>) -> Option<char>
    decreases text.len(),
{
    if text.len() == 0 {
        None
    } else if is_space(text[0]) {
        letter_in(text.drop_first())
    } else {
        Some(text[0])
    }
}

/// The letter in an input field: the first character that is no white space.
pub fn letter(text: &str) -> (letter: Option<char>)
    ensures
        letter == letter_in(text@),
{
    let chars = chars_of(text);
    let mut i: usize = 0;
    assert(chars@.skip(0) =~= text@);
    while i < chars.len()
        invariant
            i <= chars@.len(),
            letter_in(text@) == letter_in(chars@.skip(i as int)),
        decreases chars@.len() - i,
    {
        let c = chars[i];
        let space = ('\u{9}' <= c && c <= '\u{d}') || c == ' ' || c == '\u{85}' || c == '\u{a0}'
            || c == '\u{1680}' || ('\u{2000}' <= c && c <= '\u{200a}') || c == '\u{2028}' || c
            == '\u{2029}' || c == '\u{202f}' || c == '\u{205f}' || c == '\u{3000}';
        if !space {
            return Some(c);
        }
        assert(chars@.skip(i as int).drop_first() =~= chars@.skip(i + 1));
        i = i + 1;
    }
    None
}

/// The create button: the field's letter, if there is one, is the initial
/// value; the field empties.
pub fn create_channel(field: &mut String) -> (wire: WatchWire)
    ensures
        wire == (WatchWire::Create { init: letter_in(old(field)@) }),
        final(field)@.len() == 0,
{
    let init = letter(field.as_str());
    *field = String::new();
    WatchWire::Create { init }
}

/// The send button: the field's letter is sent, if there is one; the field
/// empties.
pub fn send_value(field: &mut String) -> (wire: Option<WatchWire>)
    ensures
        wire == match letter_in(old(field)@) {
            Some(ch) => Some(WatchWire::Send { ch }),
            None => None,
        },
        final(field)@.len() == 0,
{
    let ch = letter(field.as_str());
    *field = String::new();
    match ch {
        Some(ch) => Some(WatchWire::Send { ch }),
        None => None,
    }
}

/// Who the viewer is: the local player until the server has said hello.
pub open spec fn viewer_of(my_conn: Option<u64>) -> u64 {
    match my_conn {
        Some(conn) => conn,
        None => LOCAL_CONN,
    }
}

/// Who the viewer is.
pub fn viewer(my_conn: Option<u64>) -> (my: u64)
    ensures
        my == viewer_of(my_conn),
{
    match my_conn {
        Some(conn) => conn,
        None => LOCAL_CONN,
    }
}

/// Whether the viewer has the presenter's controls.
pub fn is_presenter(mode: GameMode, presenter: Option<u64>, my: u64) -> (is: bool)
    ensures
        is == (mode is Local || presenter == Some(my)),
{
    match mode {
        GameMode::Local => true,
        GameMode::Remote => presenter == Some(my),
    }
}

/// How many receivers `my` owns.
pub open spec fn owned_count(receivers: Seq<RxInfo>, my: u64) -> nat
    decreases receivers.len(),
{
    if receivers.len() == 0 {
        0
    } else {
        owned_count(receivers.drop_last(), my) + (if receivers.last().owner == my {
            1nat
        } else {
            0nat
        })
    }
}

/// Whether the viewer may have another receiver: there is a cap on how many
/// one owner holds.
pub fn can_create(receivers: &Vec<RxInfo>, my: u64) -> (can: bool)
    ensures
        can == (owned_count(receivers@, my) < WATCH_MAX_RX),
{
    let mut count: usize = 0;
    let mut i: usize = 0;
    while i < receivers.len()
        invariant
            i <= receivers@.len(),
            count <= i,
            count == owned_count(receivers@.take(i as int), my),
        decreases receivers@.len() - i,
    {
        assert(receivers@.take(i + 1).drop_last() =~= receivers@.take(i as int));
        if receivers[i].owner == my {
            count = count + 1;
        }
        i = i + 1;
    }
    assert(receivers@.take(i as int) =~= receivers@);
    count < WATCH_MAX_RX
}

/// A value as it is written in a box; dots where there is none.
pub open spec fn shown_value(value: Option<char>) -> Seq<char> {
    match value {
        Some(ch) => seq![ch],
        None => "…"@,
    }
}

/// The value in the cell.
pub fn value_label(value: Option<char>) -> (label: String)
    ensures
        label@ == shown_value(value),
{
    match value {
        Some(ch) => {
            let mut label = String::new();
            label.push(ch);
            assert(label@ =~= seq![ch]);
            label
        },
        None => "…".to_owned(),
    }
}

/// What a receiver shows of the value.
pub open spec fn face_of(rx: RxInfo, value: Option<char>) -> Seq<char> {
    if rx.borrowing {
        shown_value(value)
    } else if rx.awaiting {
        "…"@
    } else {
        Seq::empty()
    }
}

/// What a receiver shows: the value while it looks inside, dots while it waits
/// for a change, nothing while it is idle.
pub fn receiver_label(rx: &RxInfo, value: Option<char>) -> (label: String)
    ensures
        label@ == face_of(*rx, value),
{
    if rx.borrowing {
        value_label(value)
    } else if rx.awaiting {
        "…".to_owned()
    } else {
        let label = String::new();
        assert(label@ =~= Seq::empty());
        label
    }
}

/// The class of a receiver's card.
pub fn card_class(rx: &RxInfo) -> (class: &'static str)
    ensures
        class@ == (if rx.awaiting {
            "actor rx-card awaiting"@
        } else if rx.borrowing {
            "actor rx-card borrowing"@
        } else {
            "actor rx-card"@
        }),
{
    if rx.awaiting {
        "actor rx-card awaiting"
    } else if rx.borrowing {
        "actor rx-card borrowing"
    } else {
        "actor rx-card"
    }
}

/// What a receiver is doing, in the language of the API it models, and the
/// class of that note.
pub fn card_state(rx: &RxInfo) -> (state: (&'static str, &'static str))
    ensures
        rx.awaiting ==> state.0@ == "blocked in changed()"@ && state.1@ == "rx-state blocked"@,
        !rx.awaiting && rx.borrowing ==> state.0@ == "holding borrow()"@ && state.1@
            == "rx-state borrowing"@,
        !rx.awaiting && !rx.borrowing ==> state.0@ == "idle"@ && state.1@ == "rx-state"@,
{
    if rx.awaiting {
        ("blocked in changed()", "rx-state blocked")
    } else if rx.borrowing {
        ("holding borrow()", "rx-state borrowing")
    } else {
        ("idle", "rx-state")
    }
}

/// What the two toggles of a card say: waiting for a change, and looking
/// inside.
pub fn card_buttons(rx: &RxInfo) -> (buttons: (&'static str, &'static str))
    ensures
        buttons.0@ == (if rx.awaiting {
            "cancel"@
        } else {
            "until change"@
        }),
        buttons.1@ == (if rx.borrowing {
            "drop borrow"@
        } else {
            "look inside"@
        }),
{
    let change = if rx.awaiting {
        "cancel"
    } else {
        "until change"
    };
    let look = if rx.borrowing {
        "drop borrow"
    } else {
        "look inside"
    };
    (change, look)
}

/// Whether the viewer gets the buttons that operate a receiver.
pub fn is_operable(rx: &RxInfo, my: u64, presenter: bool) -> (operable: bool)
    ensures
        operable == (rx.owner == my || presenter),
{
    rx.owner == my || presenter
}

/// How many receivers look inside.
pub open spec fn looking_count(receivers: Seq<RxInfo>) -> nat
    decreases receivers.len(),
{
    if receivers.len() == 0 {
        0
    } else {
        looking_count(receivers.drop_last()) + (if receivers.last().borrowing {
            1nat
        } else {
            0nat
        })
    }
}

fn count_looking(receivers: &Vec<RxInfo>) -> (count: usize)
    ensures
        count == looking_count(receivers@),
{
    let mut count: usize = 0;
    let mut i: usize = 0;
    while i < receivers.len()
        invariant
            i <= receivers@.len(),
            count <= i,
            count == looking_count(receivers@.take(i as int)),
        decreases receivers@.len() - i,
    {
        assert(receivers@.take(i + 1).drop_last() =~= receivers@.take(i as int));
        if receivers[i].borrowing {
            count = count + 1;
        }
        i = i + 1;
    }
    assert(receivers@.take(i as int) =~= receivers@);
    count
}

/// The note under the diagram.
pub open spec fn footer(snap: WatchSnapshot) -> Seq<char> {
    if !snap.created {
        "no channel yet — presenter creates it"@
    } else if snap.pending_send is Some {
        "send blocked by "@ + decimal(looking_count(snap.receivers@)) + " borrow(s)"@
    } else if snap.receivers@.len() == 0 {
        "0 receivers — send fails"@
    } else {
        decimal(snap.receivers@.len()) + " receiver(s)"@
    }
}

/// The note under the diagram.
pub fn footer_note(snap: &WatchSnapshot) -> (note: String)
    ensures
        note@ == footer(*snap),
{
    if !snap.created {
        return "no channel yet — presenter creates it".to_owned();
    }
    let mut note = String::new();
    if snap.pending_send.is_some() {
        note.append("send blocked by ");
        push_decimal(&mut note, count_looking(&snap.receivers) as u64);
        note.append(" borrow(s)");
    } else if snap.receivers.len() == 0 {
        note.append("0 receivers — send fails");
    } else {
        push_decimal(&mut note, snap.receivers.len() as u64);
        note.append(" receiver(s)");
    }
    assert(note@ =~= footer(*snap));
    note
}

/// How the note under the diagram is drawn: a parked send stands out.
pub fn footer_class(snap: &WatchSnapshot) -> (class: &'static str)
    ensures
        class@ == (if snap.created && snap.pending_send is Some {
            "note-pill blocked"@
        } else {
            "note-pill"@
        }),
{
    if snap.created && snap.pending_send.is_some() {
        "note-pill blocked"
    } else {
        "note-pill"
    }
}

/// Position of the receiver `id` in the list, from which its place on the page
/// follows; a receiver that is gone has none.
pub fn position(receivers: &Vec<RxInfo>, id: u64) -> (at: Option<usize>)
    ensures
        match at {
            Some(at) => {
                &&& at < receivers@.len()
                &&& receivers@[at as int].id == id
                &&& forall|j: int| 0 <= j < at ==> (#[trigger] receivers@[j]).id != id
            },
            None => forall|j: int|
                0 <= j < receivers@.len() ==> (#[trigger] receivers@[j]).id != id,
        },
{
    let mut i: usize = 0;
    while i < receivers.len()
        invariant
            i <= receivers@.len(),
            forall|j: int| 0 <= j < i ==> (#[trigger] receivers@[j]).id != id,
        decreases receivers@.len() - i,
    {
        if receivers[i].id == id {
            return Some(i);
        }
        i = i + 1;
    }
    None
}

/// A change reaches everybody: one flight for each receiver that is shown, and
/// no two flights share a key.
pub proof fn law_change_flies_to_every_receiver(
    snap: WatchSnapshot,
    key: u64,
    version: u64,
    ch: char,
    i: int,
    j: int,
)
    requires
        key + snap.receivers@.len() <= u64::MAX,
        0 <= i < j < snap.receivers@.len(),
    ensures
        ({
            let started = launched(snap, key, WatchEvent::Changed { version, ch });
            &&& started.len() == snap.receivers@.len()
            &&& started[i].rx == snap.receivers@[i].id
            &&& started[i].ch == Some(ch)
            &&& started[i].key < started[j].key
        }),
{
}

/// A value flies to whom an event names: the new receiver and the one that
/// looks get a look at the cell, the one that was behind gets the value; each
/// flight has a key that none had. Other events start nothing.
pub proof fn law_flights_go_to_whom_the_event_names(
    snap: WatchSnapshot,
    key: u64,
    rx: u64,
    owner: u64,
    state: WatchSnapshot,
)
    requires
        key < u64::MAX,
    ensures
        ({
            let joined = launched(snap, key, WatchEvent::ReceiverAdded { id: rx, owner });
            let late = launched(snap, key, WatchEvent::ChangedImmediately { rx });
            let looking = launched(snap, key, WatchEvent::BorrowFlight { rx });
            &&& joined.len() == 1 && late.len() == 1 && looking.len() == 1
            &&& joined == looking
            &&& looking[0].kind is Borrow
            &&& late[0].kind is Value
            &&& looking[0].rx == rx && late[0].rx == rx
            &&& looking[0].ch == snap.value && late[0].ch == snap.value
            &&& looking[0].key == key + 1 && late[0].key == key + 1
            &&& launched(snap, key, WatchEvent::Snapshot { state }).len() == 0
            &&& launched(snap, key, WatchEvent::Hello { conn: rx }).len() == 0
            &&& launched(snap, key, WatchEvent::Created).len() == 0
            &&& launched(snap, key, WatchEvent::SameValue).len() == 0
            &&& launched(snap, key, WatchEvent::SendRefused).len() == 0
            &&& launched(snap, key, WatchEvent::SendBlocked).len() == 0
            &&& launched(snap, key, WatchEvent::ReceiverRemoved { id: rx }).len() == 0
        }),
{
}

/// A change sends out values, one to each receiver, in the order of the
/// receivers.
pub proof fn law_change_sends_values(
    snap: WatchSnapshot,
    key: u64,
    version: u64,
    ch: char,
    i: int,
)
    requires
        key + snap.receivers@.len() <= u64::MAX,
        0 <= i < snap.receivers@.len(),
    ensures
        ({
            let started = launched(snap, key, WatchEvent::Changed { version, ch });
            &&& started.len() == snap.receivers@.len()
            &&& started[i].kind is Value
            &&& started[i].rx == snap.receivers@[i].id
            &&& started[i].ch == Some(ch)
            &&& started[i].key == key + 1 + i
        }),
{
}

/// Events start their flights one after the other.
pub proof fn law_events_start_flights_in_order(
    snap: WatchSnapshot,
    flights: Seq<Flight>,
    key: u64,
    front: Seq<WatchEvent>,
    back: Seq<WatchEvent>,
)
    ensures
        ({
            let (aloft, used) = all_launched(snap, flights, key, front);
            all_launched(snap, flights, key, front + back) == all_launched(snap, aloft, used, back)
        }),
        all_launched(snap, flights, key, Seq::empty()) == (flights, key),
    decreases back.len(),
{
    if back.len() == 0 {
        assert(front + back =~= front);
    } else {
        assert((front + back).drop_last() =~= front + back.drop_last());
        law_events_start_flights_in_order(snap, flights, key, front, back.drop_last());
    }
}

/// A flight that is over is taken down, and no other.
pub proof fn law_flight_is_taken_down_by_its_key(flights: Seq<Flight>, key: u64)
    ensures
        without_key(flights, key) == flights.filter(|flight: Flight| flight.key != key),
    decreases flights.len(),
{
    reveal(Seq::filter);
    if flights.len() > 0 {
        law_flight_is_taken_down_by_its_key(flights.drop_last(), key);
    } else {
        assert(without_key(flights, key) =~= flights.filter(|flight: Flight| flight.key != key));
    }
}

/// A send that changed nothing, failed or waits says so, and nothing else does.
pub proof fn law_badge_tells_what_became_of_a_send(event: WatchEvent)
    ensures
        badge_text(event) is Some <==> event is SameValue || event is SendRefused || event
            is SendBlocked,
        event is SameValue ==> badge_text(event) == Some("same"@),
        event is SendRefused ==> badge_text(event) == Some("error"@),
        event is SendBlocked ==> badge_text(event) == Some("blocked"@),
{
}

/// A field holds the first letter in it; blanks around it do not count, and
/// what is blank holds none.
pub proof fn law_field_holds_its_first_letter(blank: Seq<char>, letter: char, rest: Seq<char>)
    requires
        forall|i: int| 0 <= i < blank.len() ==> is_space(#[trigger] blank[i]),
        !is_space(letter),
    ensures
        letter_in(blank) is None,
        letter_in(blank + seq![letter] + rest) == Some(letter),
    decreases blank.len(),
{
    let text = blank + seq![letter] + rest;
    if blank.len() > 0 {
        assert(is_space(blank[0]));
        let shorter = blank.drop_first();
        assert forall|i: int| 0 <= i < shorter.len() implies is_space(#[trigger] shorter[i]) by {
            assert(shorter[i] == blank[i + 1]);
        }
        law_field_holds_its_first_letter(shorter, letter, rest);
        assert(text.drop_first() =~= shorter + seq![letter] + rest);
        assert(text[0] == blank[0]);
    } else {
        assert(text[0] == letter);
    }
}

/// Letters, digits and punctuation are no blanks; space, tab and line ends are.
pub proof fn law_blanks_are_not_printed(c: char)
    ensures
        '!' <= c <= '~' ==> !is_space(c),
        c == ' ' || c == '\t' || c == '\n' || c == '\r' ==> is_space(c),
{
}

/// A receiver belongs to the viewer if they own it: with one more the count
/// goes up by one, with one of somebody else it does not.
pub proof fn law_own_receivers_are_counted(receivers: Seq<RxInfo>, my: u64)
    ensures
        owned_count(receivers, my) == receivers.filter(|rx: RxInfo| rx.owner == my).len(),
        looking_count(receivers) == receivers.filter(|rx: RxInfo| rx.borrowing).len(),
    decreases receivers.len(),
{
    reveal(Seq::filter);
    if receivers.len() > 0 {
        law_own_receivers_are_counted(receivers.drop_last(), my);
    }
}

/// Who looks inside sees the value, and who waits for a change sees dots; the
/// others see nothing.
pub proof fn law_face_shows_what_is_seen(rx: RxInfo, ch: char)
    ensures
        rx.borrowing ==> face_of(rx, Some(ch)) == seq![ch],
        rx.borrowing ==> face_of(rx, None) == "…"@,
        !rx.borrowing && rx.awaiting ==> face_of(rx, Some(ch)) == "…"@,
        !rx.borrowing && !rx.awaiting ==> face_of(rx, Some(ch)) == Seq::<char>::empty(),
        !rx.borrowing ==> face_of(rx, None) == face_of(rx, Some(ch)),
{
}

/// The footer says in turn: that there is no channel, how many guards hold up a
/// send, that nobody listens, how many do.
pub proof fn law_footer_says_what_holds_up_a_send(snap: WatchSnapshot)
    ensures
        ({
            let looking = snap.receivers@.filter(|rx: RxInfo| rx.borrowing).len();
            let waits = snap.pending_send is Some;
            &&& !snap.created ==> footer(snap) == "no channel yet — presenter creates it"@
            &&& snap.created && waits ==> footer(snap) == "send blocked by "@ + decimal(looking)
                + " borrow(s)"@
            &&& snap.created && !waits && snap.receivers@.len() == 0 ==> footer(snap)
                == "0 receivers — send fails"@
            &&& snap.created && !waits && snap.receivers@.len() > 0 ==> footer(snap) == decimal(
                snap.receivers@.len(),
            ) + " receiver(s)"@
        }),
{
    law_own_receivers_are_counted(snap.receivers@, 0);
}

/// A single-player game has no channel yet, and the player presents.
pub proof fn law_local_game_is_the_players()
    ensures
        ({
            let game = local_game();
            &&& game.presenter == Some(LOCAL_CONN)
            &&& !game.created
            &&& game.value is None
            &&& game.version == 0
            &&& game.pending_send is None
            &&& game.receivers.len() == 0
        }),
{
}

/// The viewer is the connection the server named, or the local player.
pub proof fn law_viewer_is_whom_the_server_named(conn: u64)
    ensures
        viewer_of(Some(conn)) == conn,
        viewer_of(None) == LOCAL_CONN,
{
}

/// What is shown before anything was heard is what a fresh game shows, and
/// nothing else is.
pub proof fn law_blank_page_shows_a_fresh_game(snap: WatchSnapshot)
    ensures
        is_blank(snap) <==> WatchGame::fresh().shown_by(snap),
{
    if snap.receivers@.len() == 0 {
        assert(snap.receivers@ =~= WatchGame::fresh().receivers);
    }
}

} // verus!

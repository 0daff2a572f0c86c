//! The player-ticket pool: a fixed number of seats in the room.
//!
//! A ticket outlives the socket that claimed it. The audience keeps a URL in a
//! phone browser that will background itself, drop wifi and come back;
//! reconnecting with the same ticket must return the same seat. Seats are
//! therefore reclaimed on expiry, not on disconnect.
//!
//! Chance and time come from outside: a fresh ticket and the current
//! millisecond are arguments.

use vstd::prelude::*;
use vstd::string::*;

use crate::protocol::{Role, PLAYER_TICKETS};
use crate::text::{hex, push_hex, text_of};

verus! {

/// How long a seat survives with nobody holding it open, in milliseconds: two
/// minutes after its last socket closes.
///
/// Longer than the dead-peer timeout on purpose: losing the socket is normal
/// for a phone, losing the seat is not.
pub const TICKET_TTL_MS: u64 = 120000;

/// A ticket's secret. Opaque to everyone but the holder; possession is the
/// whole proof, so it must be unguessable rather than sequential.
pub type Ticket = String;

/// One taken seat.
#[derive(Debug)]
pub struct Seat {
    pub ticket: Ticket,
    /// Seat number, 1-based: this is what the audience sees, so it is stable
    /// for the ticket's life.
    pub number: usize,
    /// Live sockets currently holding this ticket open. A phone with the deck
    /// and a game slide open counts twice.
    pub holders: usize,
    /// When the last holder let go. `None` while anyone is connected.
    pub idle_since: Option<u64>,
}

/// Whether a connection may be given a seat it did not arrive with.
///
/// Only the page the QR code points at issues seats. If any socket could, the
/// pool would not be a pool: a spectator would be promoted to player simply by
/// opening a game.
#[derive(Debug, Clone, Copy, PartialEq, Eq, Structural)]
pub enum Issue {
    /// Grant a free seat when the presented ticket is absent or stale.
    IfAvailable,
    /// Honour an existing ticket, but never mint one.
    Never,
}

/// The outcome of presenting credentials.
#[derive(Debug, Clone, PartialEq, Eq)]
pub struct Claim {
    pub role: Role,
    /// The ticket to keep using. Echoed back so a client that arrived without
    /// one can store the seat it was granted.
    pub ticket: Option<Ticket>,
    /// 1-based seat number, for display.
    pub seat: Option<usize>,
}

impl Claim {
    /// Nobody is turned away; they simply cannot act.
    pub fn spectator() -> (claim: Self)
        ensures
            claim.is_spectator(),
    {
        Claim { role: Role::Spectator, ticket: None, seat: None }
    }

    /// No seat and no ticket.
    pub open spec fn is_spectator(self) -> bool {
        self.role is Spectator && self.ticket is None && self.seat is None
    }

    /// A player with this ticket in this seat.
    pub open spec fn is_player(self, ticket: Seq<char>, number: nat) -> bool {
        &&& self.role is Player
        &&& text_of(self.ticket) == Some(ticket)
        &&& self.seat matches Some(seat) && seat == number
    }
}

/// How full the room is.
#[derive(Debug, Clone, Copy, PartialEq, Eq, Structural)]
pub struct Headcount {
    /// Seats claimed, whether or not their holder is connected right now.
    pub claimed: usize,
    /// Seats with at least one live socket.
    pub present: usize,
    pub capacity: usize,
}

/// One taken seat, as a mathematical value.
pub struct SeatState {
    pub ticket: Seq<char>,
    pub number: nat,
    pub holders: nat,
    pub idle_since: Option<u64>,
}

impl View for Seat {
    type V = SeatState;

    open spec fn view(&self) -> SeatState {
        SeatState {
            ticket: self.ticket@,
            number: self.number as nat,
            holders: self.holders as nat,
            idle_since: self.idle_since,
        }
    }
}

/// Whether a seat's holder has been gone for the time to live.
pub open spec fn expired(seat: SeatState, now: u64) -> bool {
    seat.holders == 0 && (seat.idle_since matches Some(idle) && now - idle >= TICKET_TTL_MS)
}

/// The seats that have not expired.
pub open spec fn unexpired(seats: Seq<SeatState>, now: u64) -> Seq<SeatState>
    decreases seats.len(),
{
    if seats.len() == 0 {
        Seq::empty()
    } else if expired(seats.last(), now) {
        unexpired(seats.drop_last(), now)
    } else {
        unexpired(seats.drop_last(), now).push(seats.last())
    }
}

/// Position of the seat that `ticket` names; the number of seats if there is
/// none.
pub open spec fn seat_index(seats: Seq<SeatState>, ticket: Seq<char>) -> int
    decreases seats.len(),
{
    if seats.len() == 0 {
        0
    } else {
        let before = seat_index(seats.drop_last(), ticket);
        if before < seats.len() - 1 || seats.last().ticket == ticket {
            before
        } else {
            seats.len() as int
        }
    }
}

/// Whether nobody holds this seat number.
pub open spec fn is_free(seats: Seq<SeatState>, number: nat) -> bool {
    forall|i: int| 0 <= i < seats.len() ==> (#[trigger] seats[i]).number != number
}

/// Whether this is the lowest free seat number in the room.
pub open spec fn is_lowest_free(seats: Seq<SeatState>, number: nat) -> bool {
    &&& 1 <= number <= PLAYER_TICKETS
    &&& is_free(seats, number)
    &&& forall|lower: nat| 1 <= lower < number ==> !(#[trigger] is_free(seats, lower))
}

/// How many seats have a live socket.
pub open spec fn present_count(seats: Seq<SeatState>) -> nat
    decreases seats.len(),
{
    if seats.len() == 0 {
        0
    } else {
        present_count(seats.drop_last()) + if seats.last().holders > 0 {
            1nat
        } else {
            0
        }
    }
}

/// What every operation keeps: seat numbers exist and are held once, a ticket
/// names one seat, and a seat is idle exactly while nobody holds it.
pub open spec fn seats_wf(seats: Seq<SeatState>) -> bool {
    &&& forall|i: int| 0 <= i < seats.len() ==> 1 <= (#[trigger] seats[i]).number <= PLAYER_TICKETS
    &&& forall|i: int, j: int|
        #![trigger seats[i], seats[j]]
        0 <= i < j < seats.len() ==> seats[i].number != seats[j].number && seats[i].ticket
            != seats[j].ticket
    &&& forall|i: int|
        0 <= i < seats.len() ==> ((#[trigger] seats[i]).holders == 0) == (seats[i].idle_since
            is Some)
}

/// A seat that one more socket holds open.
pub open spec fn held(seat: SeatState) -> SeatState {
    SeatState { holders: seat.holders + 1, idle_since: None, ..seat }
}

/// A seat that one socket less holds open, as of `now`.
pub open spec fn let_go(seat: SeatState, now: u64) -> SeatState {
    if seat.holders <= 1 {
        SeatState { holders: 0, idle_since: Some(now), ..seat }
    } else {
        SeatState { holders: (seat.holders - 1) as nat, ..seat }
    }
}

/// The pool's state machine.
#[derive(Debug)]
pub struct Pool {
    seats: Vec<Seat>,
}

impl View for Pool {
    type V = Seq<SeatState>;

    closed spec fn view(&self) -> Seq<SeatState> {
        self.seats@.map_values(|seat: Seat| seat@)
    }
}

impl Pool {
    /// The invariant that every operation keeps.
    pub open spec fn wf(&self) -> bool {
        seats_wf(self@)
    }

    /// An empty room.
    pub fn new() -> (pool: Self)
        ensures
            pool.wf(),
            pool@.len() == 0,
    {
        Pool { seats: Vec::new() }
    }

    fn find(&self, ticket: &Ticket) -> (found: Option<usize>)
        ensures
            match found {
                Some(i) => {
                    &&& i < self@.len()
                    &&& i == seat_index(self@, ticket@)
                    &&& self@[i as int].ticket == ticket@
                },
                None => {
                    &&& seat_index(self@, ticket@) == self@.len()
                    &&& forall|k: int| 0 <= k < self@.len() ==> (#[trigger] self@[k]).ticket
                        != ticket@
                },
            },
    {
        let mut i: usize = 0;
        assert(self@.take(0) =~= Seq::empty());
        while i < self.seats.len()
            invariant
                i <= self.seats.len(),
                self@.len() == self.seats.len(),
                seat_index(self@.take(i as int), ticket@) == i,
                forall|k: int| 0 <= k < i ==> (#[trigger] self@[k]).ticket != ticket@,
            decreases self.seats.len() - i,
        {
            proof {
                assert(self@.take(i + 1).drop_last() =~= self@.take(i as int));
                lemma_index_prefix(self@, ticket@, i + 1);
                assert(self@[i as int] == self.seats@[i as int]@);
            }
            if self.seats[i].ticket == *ticket {
                return Some(i);
            }
            i = i + 1;
        }
        assert(self@.take(i as int) =~= self@);
        None
    }

    /// Whether a ticket names a seat.
    pub fn contains(&self, ticket: &Ticket) -> (contains: bool)
        ensures
            contains == (seat_index(self@, ticket@) < self@.len()),
    {
        match self.find(ticket) {
            Some(_) => true,
            None => false,
        }
    }

    /// Whether nobody holds a seat number.
    fn number_free(&self, number: usize) -> (free: bool)
        ensures
            free == is_free(self@, number as nat),
    {
        let mut i: usize = 0;
        while i < self.seats.len()
            invariant
                i <= self.seats.len(),
                self@.len() == self.seats.len(),
                forall|k: int| 0 <= k < i ==> (#[trigger] self@[k]).number != number,
            decreases self.seats.len() - i,
        {
            assert(self@[i as int] == self.seats@[i as int]@);
            if self.seats[i].number == number {
                return false;
            }
            i = i + 1;
        }
        true
    }

    /// The lowest seat number that nobody holds, so the room fills up from
    /// seat 1 and the numbers on stage stay tidy.
    fn lowest_free(&self) -> (number: Option<usize>)
        ensures
            match number {
                Some(number) => is_lowest_free(self@, number as nat),
                None => forall|number: nat|
                    1 <= number <= PLAYER_TICKETS ==> !(#[trigger] is_free(self@, number)),
            },
    {
        let mut number: usize = 1;
        while number <= PLAYER_TICKETS
            invariant
                1 <= number <= PLAYER_TICKETS + 1,
                forall|lower: nat| 1 <= lower < number ==> !(#[trigger] is_free(self@, lower)),
            decreases PLAYER_TICKETS + 1 - number,
        {
            if self.number_free(number) {
                return Some(number);
            }
            number = number + 1;
        }
        None
    }

    /// Whether a claim can be ruled on: `fresh` is not somebody's ticket
    /// already, and no count of sockets is at its end.
    pub fn can_rule(&self, fresh: &Ticket) -> (can: bool)
        ensures
            can == ((forall|i: int|
                0 <= i < self@.len() ==> (#[trigger] self@[i]).ticket != fresh@) && (forall|i: int|
                0 <= i < self@.len() ==> (#[trigger] self@[i]).holders < usize::MAX)),
    {
        let mut i: usize = 0;
        while i < self.seats.len()
            invariant
                i <= self.seats@.len(),
                self@.len() == self.seats@.len(),
                forall|j: int| 0 <= j < self@.len() ==> self@[j] == self.seats@[j]@,
                forall|j: int| 0 <= j < i ==> (#[trigger] self@[j]).ticket != fresh@,
                forall|j: int| 0 <= j < i ==> (#[trigger] self@[j]).holders < usize::MAX,
            decreases self.seats@.len() - i,
        {
            assert(self@[i as int] == self.seats@[i as int]@);
            if self.seats[i].ticket == *fresh || self.seats[i].holders == usize::MAX {
                return false;
            }
            i = i + 1;
        }
        true
    }

    /// Rule on a presented ticket. `fresh` is a newly minted ticket that names
    /// no seat yet; it is used if a seat is issued.
    ///
    /// A returning holder keeps their seat, even past the point where the pool
    /// is otherwise full. An unknown ticket is a stale one (restarted server,
    /// expired seat) and is treated like none.
    pub fn claim(
        &mut self,
        ticket: Option<Ticket>,
        issue: Issue,
        fresh: Ticket,
        now: u64,
    ) -> (claim: Claim)
        requires
            old(self).wf(),
            forall|i: int| 0 <= i < old(self)@.len() ==> (#[trigger] old(self)@[i]).ticket
                != fresh@,
            forall|i: int| 0 <= i < old(self)@.len() ==> (#[trigger] old(self)@[i]).holders
                < usize::MAX,
        ensures
            final(self).wf(),
            ({
                let seats = unexpired(old(self)@, now);
                let i = match ticket {
                    Some(ticket) => seat_index(seats, ticket@),
                    None => seats.len() as int,
                };
                if i < seats.len() {
                    &&& claim.is_player(seats[i].ticket, seats[i].number)
                    &&& ticket matches Some(ticket) && seats[i].ticket == ticket@
                    &&& final(self)@ == seats.update(i, held(seats[i]))
                } else if issue is IfAvailable && exists|number: nat|
                    1 <= number <= PLAYER_TICKETS && #[trigger] is_free(seats, number) {
                    exists|number: nat| #[trigger]
                        is_lowest_free(seats, number) && claim.is_player(fresh@, number)
                            && final(self)@ == seats.push(
                            SeatState { ticket: fresh@, number, holders: 1, idle_since: None },
                        )
                } else {
                    claim.is_spectator() && final(self)@ == seats
                }
            }),
    {
        self.expire(now);
        let ghost seats = self@;
        proof {
            lemma_unexpired(old(self)@, now);
        }
        match ticket {
            Some(ticket) => {
                match self.find(&ticket) {
                    Some(i) => {
                        let number: usize = self.seats[i].number;
                        assert(seats[i as int] == self.seats@[i as int]@);
                        let holders: usize = self.seats[i].holders + 1;
                        self.set_seat(i, holders, None);
                        return Claim {
                            role: Role::Player,
                            seat: Some(number),
                            ticket: Some(ticket),
                        };
                    },
                    None => {},
                }
            },
            None => {},
        }
        if issue == Issue::Never {
            return Claim::spectator();
        }
        let number: usize = match self.lowest_free() {
            Some(number) => number,
            None => {
                return Claim::spectator();
            },
        };
        let kept = fresh.clone();
        self.seats.push(Seat { ticket: fresh, number, holders: 1, idle_since: None });
        proof {
            assert(is_free(seats, number as nat));
            assert(self@ =~= seats.push(
                SeatState {
                    ticket: fresh@,
                    number: number as nat,
                    holders: 1,
                    idle_since: None,
                },
            ));
        }
        Claim { role: Role::Player, seat: Some(number), ticket: Some(kept) }
    }

    /// Change who holds a seat open.
    fn set_seat(&mut self, i: usize, holders: usize, idle_since: Option<u64>)
        requires
            i < old(self)@.len(),
        ensures
            final(self)@ == old(self)@.update(
                i as int,
                SeatState { holders: holders as nat, idle_since, ..old(self)@[i as int] },
            ),
    {
        let ticket = self.seats[i].ticket.clone();
        let number: usize = self.seats[i].number;
        self.seats.set(i, Seat { ticket, number, holders, idle_since });
        assert(self@ =~= old(self)@.update(
            i as int,
            SeatState { holders: holders as nat, idle_since, ..old(self)@[i as int] },
        ));
    }

    /// A socket holding `ticket` closed. The seat itself survives: only the
    /// hold on it ends.
    pub fn release(&mut self, ticket: &Ticket, now: u64)
        requires
            old(self).wf(),
        ensures
            final(self).wf(),
            ({
                let i = seat_index(old(self)@, ticket@);
                final(self)@ == if i < old(self)@.len() {
                    old(self)@.update(i, let_go(old(self)@[i], now))
                } else {
                    old(self)@
                }
            }),
    {
        match self.find(ticket) {
            Some(i) => {
                assert(self@[i as int] == self.seats@[i as int]@);
                let holders: usize = self.seats[i].holders;
                if holders <= 1 {
                    self.set_seat(i, 0, Some(now));
                } else {
                    let idle_since = self.seats[i].idle_since;
                    self.set_seat(i, holders - 1, idle_since);
                }
            },
            None => {},
        }
    }

    /// Recycle seats whose holder has been gone for the time to live.
    pub fn expire(&mut self, now: u64)
        requires
            old(self).wf(),
        ensures
            final(self).wf(),
            final(self)@ == unexpired(old(self)@, now),
    {
        let ghost seats = self@;
        let ghost mut seen: int = 0;
        let mut i: usize = 0;
        proof {
            assert(seats.take(0) =~= Seq::empty());
            assert(self@.take(0) =~= Seq::empty());
            assert(seats.skip(0) =~= seats);
            assert(self@.skip(0) =~= self@);
        }
        while i < self.seats.len()
            invariant
                i <= self.seats.len(),
                self@.len() == self.seats.len(),
                0 <= seen <= seats.len(),
                seats == old(self)@,
                self@.skip(i as int) == seats.skip(seen),
                self@.take(i as int) == unexpired(seats.take(seen), now),
            decreases self.seats.len() - i,
        {
            let ghost here = self@;
            proof {
                assert(here.skip(i as int).len() == seats.len() - seen);
                assert(here.skip(i as int)[0] == here[i as int]);
                assert(seats.skip(seen)[0] == seats[seen]);
                assert(seats.take(seen + 1).drop_last() =~= seats.take(seen));
                assert(seats.skip(seen).skip(1) =~= seats.skip(seen + 1));
                assert(here[i as int] == self.seats@[i as int]@);
            }
            let gone = self.seats[i].holders == 0 && match self.seats[i].idle_since {
                Some(idle) => now >= idle && now - idle >= TICKET_TTL_MS,
                None => false,
            };
            if gone {
                self.seats.remove(i);
                proof {
                    assert(self@ =~= here.remove(i as int));
                    assert(self@.take(i as int) =~= here.take(i as int));
                    assert(self@.skip(i as int) =~= here.skip(i as int).skip(1));
                }
            } else {
                i = i + 1;
                proof {
                    assert(self@.skip(i as int) =~= here.skip(i - 1).skip(1));
                    assert(self@.take(i as int) =~= here.take(i - 1).push(here[i - 1]));
                }
            }
            proof {
                seen = seen + 1;
            }
        }
        proof {
            assert(self@.take(i as int) =~= self@);
            assert(self@.skip(i as int).len() == 0);
            assert(seats.take(seen) =~= seats);
            lemma_unexpired(seats, now);
        }
    }

    /// How many seats are taken, for the presenter's headcount.
    pub fn headcount(&self) -> (count: Headcount)
        ensures
            count.claimed == self@.len(),
            count.present == present_count(self@),
            count.capacity == PLAYER_TICKETS,
    {
        let mut present: usize = 0;
        let mut i: usize = 0;
        assert(self@.take(0) =~= Seq::empty());
        while i < self.seats.len()
            invariant
                i <= self.seats.len(),
                self@.len() == self.seats.len(),
                present <= i,
                present == present_count(self@.take(i as int)),
            decreases self.seats.len() - i,
        {
            assert(self@.take(i + 1).drop_last() =~= self@.take(i as int));
            assert(self@[i as int] == self.seats@[i as int]@);
            if self.seats[i].holders > 0 {
                present = present + 1;
            }
            i = i + 1;
        }
        assert(self@.take(i as int) =~= self@);
        Headcount { claimed: self.seats.len(), present, capacity: PLAYER_TICKETS }
    }
}

/// The text of a ticket: two random numbers, sixteen hexadecimal digits each.
pub fn ticket_text(high: u64, low: u64) -> (ticket: Ticket)
    ensures
        ticket@ == hex(high as nat, 16) + hex(low as nat, 16),
{
    let mut out = String::new();
    push_hex(&mut out, high, 16);
    push_hex(&mut out, low, 16);
    assert(out@ =~= hex(high as nat, 16) + hex(low as nat, 16));
    out
}

proof fn lemma_index_prefix(seats: Seq<SeatState>, ticket: Seq<char>, n: int)
    requires
        0 <= n <= seats.len(),
    ensures
        0 <= seat_index(seats.take(n), ticket) <= n,
        seat_index(seats.take(n), ticket) < n ==> seat_index(seats, ticket) == seat_index(
            seats.take(n),
            ticket,
        ),
    decreases seats.len(),
{
    if n < seats.len() {
        lemma_index_prefix(seats.drop_last(), ticket, n);
        assert(seats.drop_last().take(n) =~= seats.take(n));
    } else {
        assert(seats.take(n) =~= seats);
        if n > 0 {
            lemma_index_prefix(seats.drop_last(), ticket, n - 1);
            assert(seats.drop_last().take(n - 1) =~= seats.drop_last());
        }
    }
}

/// What is left after expiry was there before, and the invariant still holds.
proof fn lemma_unexpired(seats: Seq<SeatState>, now: u64)
    requires
        seats_wf(seats),
    ensures
        seats_wf(unexpired(seats, now)),
        forall|i: int|
            0 <= i < unexpired(seats, now).len() ==> seats.contains(
                #[trigger] unexpired(seats, now)[i],
            ),
    decreases seats.len(),
{
    if seats.len() > 0 {
        let front = seats.drop_last();
        assert(seats_wf(front)) by {
            assert forall|i: int, j: int|
                #![trigger front[i], front[j]]
                0 <= i < j < front.len() implies front[i].number != front[j].number
                && front[i].ticket != front[j].ticket by {
                assert(seats[i].number != seats[j].number);
            }
            assert forall|i: int| 0 <= i < front.len() implies 1 <= (#[trigger] front[i]).number
                <= PLAYER_TICKETS by {
                assert(seats[i].number >= 1);
            }
            assert forall|i: int| 0 <= i < front.len() implies ((#[trigger] front[i]).holders == 0)
                == (front[i].idle_since is Some) by {
                assert((seats[i].holders == 0) == (seats[i].idle_since is Some));
            }
        }
        lemma_unexpired(front, now);
        let kept = unexpired(front, now);
        let after = unexpired(seats, now);
        assert forall|i: int| 0 <= i < after.len() implies seats.contains(#[trigger] after[i]) by {
            if i < kept.len() {
                assert(front.contains(kept[i]));
                let k = choose|k: int| 0 <= k < front.len() && front[k] == kept[i];
                assert(seats[k] == after[i]);
            } else {
                assert(seats[seats.len() - 1] == after[i]);
            }
        }
        assert forall|i: int, j: int|
            #![trigger after[i], after[j]]
            0 <= i < j < after.len() implies after[i].number != after[j].number && after[i].ticket
            != after[j].ticket by {
            if j < kept.len() {
                assert(kept[i].number != kept[j].number);
            } else {
                assert(front.contains(kept[i]));
                let k = choose|k: int| 0 <= k < front.len() && front[k] == kept[i];
                assert(seats[k].number != seats[seats.len() - 1].number);
            }
        }
    }
}

/// The room is finite: however claims and releases come, no more seats are
/// taken than there are tickets.
pub proof fn law_room_is_finite(seats: Seq<SeatState>)
    requires
        seats_wf(seats),
    ensures
        seats.len() <= PLAYER_TICKETS,
{
    let numbers = Seq::new(seats.len(), |i: int| seats[i].number as int);
    assert(numbers.no_duplicates()) by {
        assert forall|i: int, j: int|
            0 <= i < numbers.len() && 0 <= j < numbers.len() && i != j implies numbers[i]
            != numbers[j] by {
            if i < j {
                assert(seats[i].number != seats[j].number);
            } else {
                assert(seats[j].number != seats[i].number);
            }
        }
    }
    numbers.unique_seq_to_set();
    let all = vstd::set_lib::set_int_range(1, PLAYER_TICKETS + 1);
    vstd::set_lib::lemma_int_range(1, PLAYER_TICKETS + 1);
    assert(numbers.to_set().subset_of(all)) by {
        assert forall|n: int| numbers.to_set().contains(n) implies all.contains(n) by {
            let i = choose|i: int| 0 <= i < numbers.len() && numbers[i] == n;
            assert(1 <= seats[i].number <= PLAYER_TICKETS);
        }
    }
    vstd::set_lib::lemma_len_subset(numbers.to_set(), all);
}

/// A seat that somebody holds open never expires, and neither does one whose
/// time to live is not over: its ticket still names the same seat number after
/// any expiry.
pub proof fn law_ticket_keeps_its_seat(seats: Seq<SeatState>, i: int, now: u64)
    requires
        seats_wf(seats),
        0 <= i < seats.len(),
        seats[i].holders > 0 || (seats[i].idle_since matches Some(idle) && now - idle
            < TICKET_TTL_MS),
    ensures
        ({
            let left = unexpired(seats, now);
            let k = seat_index(left, seats[i].ticket);
            0 <= k < left.len() && left[k] == seats[i]
        }),
    decreases seats.len(),
{
    let front = seats.drop_last();
    let left = unexpired(seats, now);
    let ticket = seats[i].ticket;
    lemma_unexpired(seats, now);
    lemma_kept(seats, i, now);
    let j = choose|j: int| 0 <= j < left.len() && left[j] == seats[i];
    lemma_index_found(left, ticket, j);
    let k = seat_index(left, ticket);
    if k != j {
        assert(left[k].ticket == left[j].ticket);
    }
}

proof fn lemma_kept(seats: Seq<SeatState>, i: int, now: u64)
    requires
        0 <= i < seats.len(),
        !expired(seats[i], now),
    ensures
        unexpired(seats, now).contains(seats[i]),
    decreases seats.len(),
{
    let front = seats.drop_last();
    let kept = unexpired(front, now);
    let left = unexpired(seats, now);
    if i < seats.len() - 1 {
        lemma_kept(front, i, now);
        let k = choose|k: int| 0 <= k < kept.len() && kept[k] == front[i];
        assert(left[k] == seats[i]);
    } else {
        assert(left[left.len() - 1] == seats[i]);
    }
}

proof fn lemma_index_found(seats: Seq<SeatState>, ticket: Seq<char>, i: int)
    requires
        0 <= i < seats.len(),
        seats[i].ticket == ticket,
    ensures
        0 <= seat_index(seats, ticket) <= i,
        seats[seat_index(seats, ticket)].ticket == ticket,
    decreases seats.len(),
{
    let front = seats.drop_last();
    if i < seats.len() - 1 {
        assert(front[i] == seats[i]);
        lemma_index_found(front, ticket, i);
    } else {
        lemma_index_sound(front, ticket);
    }
}

proof fn lemma_index_sound(seats: Seq<SeatState>, ticket: Seq<char>)
    ensures
        0 <= seat_index(seats, ticket) <= seats.len(),
        seat_index(seats, ticket) < seats.len() ==> seats[seat_index(seats, ticket)].ticket
            == ticket,
    decreases seats.len(),
{
    if seats.len() > 0 {
        lemma_index_sound(seats.drop_last(), ticket);
    }
}

/// Every digit of a hexadecimal number is one of `0` to `9` and `a` to `f`.
pub proof fn lemma_hex_digits(number: nat, width: nat)
    ensures
        hex(number, width).len() == width,
        forall|i: int|
            0 <= i < width ==> {
                let c = #[trigger] hex(number, width)[i];
                '0' <= c <= '9' || 'a' <= c <= 'f'
            },
    decreases width,
{
    if width > 0 {
        lemma_hex_digits(number / 16, (width - 1) as nat);
    }
}

/// The tickets that are minted survive their trip through the URL.
pub proof fn law_minted_tickets_survive_the_url(high: u64, low: u64)
    ensures
        ({
            let ticket = hex(high as nat, 16) + hex(low as nat, 16);
            crate::server::auth::claimed_in(
                seq!['t', '='] + ticket,
                crate::protocol::TICKET_PARAM@,
            ) == Some(ticket)
        }),
{
    let ticket = hex(high as nat, 16) + hex(low as nat, 16);
    lemma_hex_digits(high as nat, 16);
    lemma_hex_digits(low as nat, 16);
    assert forall|i: int| 0 <= i < ticket.len() implies crate::server::auth::is_plain(
        #[trigger] ticket[i],
    ) by {
        if i < 16 {
            assert(ticket[i] == hex(high as nat, 16)[i]);
        } else {
            assert(ticket[i] == hex(low as nat, 16)[i - 16]);
        }
    }
    crate::server::auth::law_ticket_survives_the_url(ticket);
}

/// A seat is recycled two minutes after its last socket closed, and not
/// before; the others keep their order.
pub proof fn law_seats_expire_after_two_minutes(seats: Seq<SeatState>, now: u64)
    ensures
        unexpired(seats, now) == seats.filter(
            |seat: SeatState|
                seat.holders > 0 || seat.idle_since is None || now - seat.idle_since->Some_0 < 2
                    * 60 * 1000,
        ),
    decreases seats.len(),
{
    reveal(Seq::filter);
    if seats.len() > 0 {
        law_seats_expire_after_two_minutes(seats.drop_last(), now);
    }
}

/// A seat counts the sockets that hold it open: taking it up again and letting
/// go are the reverse of each other, neither changes whose seat it is, and it
/// is idle from the moment the last one let go.
pub proof fn law_seat_counts_its_sockets(seat: SeatState, now: u64)
    ensures
        ({
            let taken = held(seat);
            let left = let_go(seat, now);
            &&& taken.ticket == seat.ticket && taken.number == seat.number
            &&& taken.holders == seat.holders + 1
            &&& taken.idle_since is None
            &&& left.ticket == seat.ticket && left.number == seat.number
            &&& seat.holders > 0 ==> left.holders + 1 == seat.holders
            &&& seat.holders == 0 ==> left.holders == 0
            &&& left.holders == 0 ==> left.idle_since == Some(now)
            &&& left.holders > 0 ==> left.idle_since == seat.idle_since
            &&& let_go(taken, now).holders == seat.holders
        }),
{
}

/// A ticket names the seat that was given out for it, and no other ticket
/// does; a ticket that nobody was given names none.
pub proof fn law_ticket_names_its_seat(seats: Seq<SeatState>, ticket: Seq<char>, i: int)
    requires
        seats_wf(seats),
        0 <= i < seats.len(),
    ensures
        seat_index(seats, seats[i].ticket) == i,
        seat_index(seats, ticket) == i ==> seats[i].ticket == ticket,
        seat_index(seats, ticket) < seats.len() <==> exists|k: int|
            0 <= k < seats.len() && (#[trigger] seats[k]).ticket == ticket,
{
    lemma_index_found(seats, seats[i].ticket, i);
    lemma_index_sound(seats, ticket);
    let k = seat_index(seats, seats[i].ticket);
    if k != i {
        assert(seats[k].ticket == seats[i].ticket);
    }
    if seat_index(seats, ticket) < seats.len() {
        assert(seats[seat_index(seats, ticket)].ticket == ticket);
    }
    if exists|k: int| 0 <= k < seats.len() && (#[trigger] seats[k]).ticket == ticket {
        let k = choose|k: int| 0 <= k < seats.len() && (#[trigger] seats[k]).ticket == ticket;
        lemma_index_found(seats, ticket, k);
    }
}

/// The room fills up from seat one: the seat given out next is free, is one of
/// the two dozen, and every lower one is taken.
pub proof fn law_room_fills_from_the_front(seats: Seq<SeatState>, number: nat, lower: nat)
    requires
        is_lowest_free(seats, number),
    ensures
        1 <= number <= 24,
        forall|i: int| 0 <= i < seats.len() ==> (#[trigger] seats[i]).number != number,
        1 <= lower < number ==> exists|i: int|
            0 <= i < seats.len() && (#[trigger] seats[i]).number == lower,
{
    if 1 <= lower < number {
        assert(!is_free(seats, lower));
    }
}

/// Those present are the seats that some socket holds open.
pub proof fn law_present_seats_are_held_open(seats: Seq<SeatState>)
    ensures
        present_count(seats) == seats.filter(|seat: SeatState| seat.holders > 0).len(),
        present_count(seats) <= seats.len(),
    decreases seats.len(),
{
    reveal(Seq::filter);
    if seats.len() > 0 {
        law_present_seats_are_held_open(seats.drop_last());
    }
}

/// What a claim comes to: a player has a ticket and a seat, a spectator
/// neither.
pub proof fn law_players_have_seats(claim: Claim, ticket: Seq<char>, number: nat)
    ensures
        claim.is_player(ticket, number) ==> claim.role == Role::Player && claim.seat is Some
            && claim.seat->Some_0 == number && claim.ticket is Some && claim.ticket->Some_0@
            == ticket,
        claim.is_spectator() ==> claim.role == Role::Spectator && claim.ticket is None
            && claim.seat is None,
        !(claim.is_player(ticket, number) && claim.is_spectator()),
{
}

/// Hexadecimal digits give the number back.
proof fn lemma_hex_is_unique(a: nat, b: nat, width: nat)
    requires
        hex(a, width) == hex(b, width),
        a < vstd::arithmetic::power::pow(16, width),
        b < vstd::arithmetic::power::pow(16, width),
    ensures
        a == b,
    decreases width,
{
    if width == 0 {
        vstd::arithmetic::power::lemma_pow0(16);
    } else {
        let w = (width - 1) as nat;
        lemma_hex_digits(a / 16, w);
        lemma_hex_digits(b / 16, w);
        let x = hex(a, width);
        let y = hex(b, width);
        assert(x.drop_last() =~= hex(a / 16, w));
        assert(y.drop_last() =~= hex(b / 16, w));
        assert(x.last() == y.last());
        assert(a % 16 == b % 16);
        reveal(vstd::arithmetic::power::pow);
        assert(vstd::arithmetic::power::pow(16, width) == 16 * vstd::arithmetic::power::pow(16, w));
        lemma_hex_is_unique(a / 16, b / 16, w);
        assert(a == 16 * (a / 16) + a % 16);
        assert(b == 16 * (b / 16) + b % 16);
    }
}

/// Different numbers make different tickets, so a ticket cannot be met by
/// accident.
pub proof fn law_tickets_differ(high: u64, low: u64, other_high: u64, other_low: u64)
    requires
        high != other_high || low != other_low,
    ensures
        hex(high as nat, 16) + hex(low as nat, 16) != hex(other_high as nat, 16) + hex(
            other_low as nat,
            16,
        ),
        (hex(high as nat, 16) + hex(low as nat, 16)).len() == 32,
{
    let a = hex(high as nat, 16);
    let b = hex(low as nat, 16);
    let c = hex(other_high as nat, 16);
    let d = hex(other_low as nat, 16);
    lemma_hex_digits(high as nat, 16);
    lemma_hex_digits(low as nat, 16);
    lemma_hex_digits(other_high as nat, 16);
    lemma_hex_digits(other_low as nat, 16);
    assert(vstd::arithmetic::power::pow(16, 16) == 0x1_0000_0000_0000_0000int) by {
        reveal_with_fuel(vstd::arithmetic::power::pow, 17);
    }
    if a + b == c + d {
        assert(a =~= (a + b).take(16));
        assert(c =~= (c + d).take(16));
        assert(b =~= (a + b).skip(16));
        assert(d =~= (c + d).skip(16));
        lemma_hex_is_unique(high as nat, other_high as nat, 16);
        lemma_hex_is_unique(low as nat, other_low as nat, 16);
    }
}

} // verus!

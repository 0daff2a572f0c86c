//! The tick contract: what it takes for a sim to be driven by a clock as well
//! as by wires.
//!
//! A sim never waits; it reports *when* it would next like to be polled and
//! the driver decides how to wait. That keeps the sims testable by stepping a
//! number forward instead of by sleeping. Clocks are whole milliseconds.

use vstd::prelude::*;

verus! {

/// Milliseconds in a minute, which is once around the dial.
pub const MINUTE_MS: u64 = 60000;

/// A sim whose state can advance because time passed.
///
/// Drivers use the methods as a cycle: [`sync_now`](Ticking::sync_now) to tell
/// the sim what time it is, [`poll_due`](Ticking::poll_due) to collect whatever
/// that made happen, and [`next_delay_ms`](Ticking::next_delay_ms) to learn how
/// long to wait before doing it again.
pub trait Ticking: Sized {
    /// What this sim emits when time moves it.
    type Event;

    /// The sim's invariant.
    spec fn valid(&self) -> bool;

    /// Whether the clock may be set to `now_ms`.
    spec fn time_fits(&self, now_ms: u64) -> bool;

    /// How many more completions can be recorded.
    spec fn room(&self) -> nat;

    /// Whether something is due at the synced time.
    spec fn is_due(&self) -> bool;

    /// Setting the clock to `now_ms` leads to `after`.
    spec fn synced(&self, now_ms: u64, after: &Self) -> bool;

    /// Polling at the synced time leads to `after` and yields `events`.
    spec fn polled(&self, after: &Self, events: Seq<Self::Event>) -> bool;

    /// How long until something comes due; `None` while only a wire can move
    /// it.
    spec fn delay(&self) -> Option<u64>;

    /// Whether the clock may be set to `now_ms`.
    fn fits(&self, now_ms: u64) -> (fits: bool)
        requires
            self.valid(),
        ensures
            fits == self.time_fits(now_ms),
    ;

    /// Tell the sim what time it is now, in monotonic milliseconds.
    fn sync_now(&mut self, now_ms: u64)
        requires
            old(self).valid(),
            old(self).time_fits(now_ms),
        ensures
            final(self).valid(),
            final(self).room() == old(self).room(),
            old(self).synced(now_ms, final(self)),
    ;

    /// How long until this sim has something to do, or `None` if it is waiting
    /// on a wire rather than on the clock.
    ///
    /// A driver that gets `None` must park until a wire arrives; one that gets
    /// `Some(0)` has work due right now.
    fn next_delay_ms(&self) -> (delay: Option<u64>)
        requires
            self.valid(),
        ensures
            delay == self.delay(),
            delay == Some(0u64) <==> self.is_due(),
    ;

    /// Collect everything that came due at the synced time.
    ///
    /// Idempotent: afterwards nothing is due, so polling again without moving
    /// the clock yields nothing.
    fn poll_due(&mut self) -> (events: Vec<Self::Event>)
        requires
            old(self).valid(),
            old(self).room() > 0,
        ensures
            final(self).valid(),
            final(self).room() + 1 >= old(self).room(),
            old(self).polled(final(self), events@),
            events@.len() > 0 <==> old(self).is_due(),
            !final(self).is_due(),
    ;

    /// Sync and poll in one step, which is what every driver actually wants.
    fn tick(&mut self, now_ms: u64) -> (events: Vec<Self::Event>)
        requires
            old(self).valid(),
            old(self).time_fits(now_ms),
            old(self).room() > 0,
        ensures
            final(self).valid(),
            exists|synced: Self| #[trigger]
                old(self).synced(now_ms, &synced) && synced.polled(final(self), events@),
            !final(self).is_due(),
    {
        self.sync_now(now_ms);
        self.poll_due()
    }
}

/// Where the dial's hand points at a moment given in milliseconds since the
/// epoch: how far into the current minute it is.
pub fn wall_now_ms(epoch_ms: u64) -> (wall_ms: u64)
    ensures
        wall_ms < MINUTE_MS,
        wall_ms == epoch_ms % MINUTE_MS,
{
    epoch_ms % MINUTE_MS
}

/// The offset that maps a monotonic clock onto the dial: the milliseconds into
/// the minute that the wall shows when the monotonic clock reads zero.
pub fn wall_offset_ms(wall_ms: u64, now_ms: u64) -> (offset: u64)
    ensures
        offset < MINUTE_MS,
        (now_ms + offset) % (MINUTE_MS as int) == wall_ms as int % (MINUTE_MS as int),
{
    let wall: u64 = wall_ms % MINUTE_MS;
    let now: u64 = now_ms % MINUTE_MS;
    let offset: u64 = (wall + MINUTE_MS - now) % MINUTE_MS;
    proof {
        let turns = now_ms as int / 60000;
        assert(now_ms as int == turns * 60000 + now);
        if wall >= now {
            assert(offset == wall - now);
            assert((now_ms + offset) as int == turns * 60000 + wall);
        } else {
            assert(offset == wall + 60000 - now);
            assert((now_ms + offset) as int == (turns + 1) * 60000 + wall);
        }
    }
    offset
}

} // verus!

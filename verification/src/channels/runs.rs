//! What holds of a channel over any run of calls, however they interleave.
//!
//! A run is a sequence of calls; [`MpscState::after`],
//! [`BroadcastState::after`] and [`WatchState::after`] say what each of them
//! does, and the executable calls are stated over the same functions.

use vstd::prelude::*;

use super::broadcast::{lemma_free_slot, BroadcastOp, BroadcastState, Receipt};
use super::mpsc::{
    failed, first_queued, law_close_hands_values_back, lemma_first_queued, lemma_position_at,
    lemma_position_sound, lemma_take_front, position_of, BlockedSend, BlockedState, MpscOp,
    MpscState,
};
use super::waiter::WaiterId;
use super::watch::{
    lemma_position_prefix, lemma_queued_bound, lemma_remove_queued_len, lemma_update_keeps_queued,
    lemma_with_receiver, position_of as parked_at, queued_values, PendingKind, PendingState,
    WatchOp, WatchState,
};

verus! {

impl<T> MpscState<T> {
    /// The state after a run of calls.
    pub open spec fn run(self, ops: Seq<MpscOp<T>>) -> Self
        decreases ops.len(),
    {
        if ops.len() == 0 {
            self
        } else {
            self.run(ops.drop_last()).after(ops.last())
        }
    }

    /// The values accepted into the buffer over a run, in the order in which
    /// they entered.
    pub open spec fn accepted(self, ops: Seq<MpscOp<T>>) -> Seq<T>
        decreases ops.len(),
    {
        if ops.len() == 0 {
            Seq::empty()
        } else {
            self.accepted(ops.drop_last()) + self.run(ops.drop_last()).accepts(ops.last())
        }
    }

    /// The values received over a run, oldest first.
    pub open spec fn handed_out(self, ops: Seq<MpscOp<T>>) -> Seq<T>
        decreases ops.len(),
    {
        if ops.len() == 0 {
            Seq::empty()
        } else {
            self.handed_out(ops.drop_last()) + self.run(ops.drop_last()).hands_out(ops.last())
        }
    }

    /// The parked sends whose values entered the buffer over a run, in the
    /// order in which they did.
    pub open spec fn woken(self, ops: Seq<MpscOp<T>>) -> Seq<WaiterId>
        decreases ops.len(),
    {
        if ops.len() == 0 {
            Seq::empty()
        } else {
            let before = self.run(ops.drop_last());
            let woken = self.woken(ops.drop_last());
            if ops.last().receives() && before.wakes() {
                woken.push(before.blocked[first_queued(before.blocked)].waiter)
            } else {
                woken
            }
        }
    }
}

/// Concatenation associates.
proof fn lemma_regroup<T>(a: Seq<T>, b: Seq<T>, c: Seq<T>)
    ensures
        (a + b) + c == a + (b + c),
{
    assert((a + b) + c =~= a + (b + c));
}

/// What a call hands out comes off the front of the buffer, and what it brings
/// in goes to the back.
proof fn lemma_call_moves_values<T>(state: MpscState<T>, op: MpscOp<T>)
    ensures
        state.hands_out(op) + state.after(op).buffer == state.buffer + state.accepts(op),
{
    let after = state.after(op);
    if op.receives() && state.buffer.len() > 0 {
        assert(after.buffer == state.take_front().buffer);
        assert(seq![state.buffer[0]] + state.take_front().buffer =~= state.buffer
            + state.accepts(op));
    } else {
        assert(state.hands_out(op) + after.buffer =~= after.buffer);
        assert(after.buffer =~= state.buffer + state.accepts(op));
    }
}

/// Over any run, sends that fail and halves that close or go away included,
/// nothing is lost, made up or reordered: what was received, followed by what
/// is still buffered, is what was buffered at the start, followed by what was
/// accepted.
pub proof fn law_received_then_buffered_is_accepted<T>(state: MpscState<T>, ops: Seq<MpscOp<T>>)
    ensures
        state.handed_out(ops) + state.run(ops).buffer == state.buffer + state.accepted(ops),
    decreases ops.len(),
{
    if ops.len() == 0 {
        assert(state.handed_out(ops) + state.buffer =~= state.buffer + state.accepted(ops));
    } else {
        let front = ops.drop_last();
        let op = ops.last();
        let before = state.run(front);
        law_received_then_buffered_is_accepted(state, front);
        lemma_call_moves_values(before, op);
        lemma_regroup(
            state.handed_out(front),
            before.hands_out(op),
            before.after(op).buffer,
        );
        lemma_regroup(state.handed_out(front), before.buffer, before.accepts(op));
        lemma_regroup(state.buffer, state.accepted(front), before.accepts(op));
    }
}

/// A call keeps the invariant of the channel.
proof fn lemma_call_keeps_wf<T>(state: MpscState<T>, op: MpscOp<T>)
    requires
        state.wf(),
        state.issued < u64::MAX,
    ensures
        state.after(op).wf(),
        state.issued <= state.after(op).issued <= state.issued + 1,
{
    if state.buffer.len() > 0 {
        lemma_take_front(state);
    }
    match op {
        MpscOp::PollSend(waiter) => {
            lemma_position_sound(state.blocked, waiter);
        },
        MpscOp::CancelSend(waiter) => {
            lemma_position_sound(state.blocked, waiter);
        },
        MpscOp::PollRecv => {
            let registered = state.registered().0;
            if registered.buffer.len() > 0 {
                lemma_take_front(registered);
            }
        },
        _ => {},
    }
}

/// Every id in `woken` is below that of every send that still waits, and
/// below the ids still to come.
spec fn before_the_waiting<T>(woken: Seq<WaiterId>, state: MpscState<T>) -> bool {
    &&& forall|i: int| 0 <= i < woken.len() ==> (#[trigger] woken[i]).0 <= state.issued
    &&& forall|i: int, j: int|
        #![trigger woken[i], state.blocked[j]]
        0 <= i < woken.len() && 0 <= j < state.blocked.len() && state.blocked[j].state is Queued
            ==> woken[i].0 < state.blocked[j].waiter.0
}

/// A parked send that waits after a call waited before it, or has the next
/// id; the one that the call woke came before it.
proof fn lemma_still_waiting<T>(state: MpscState<T>, op: MpscOp<T>, j: int)
    requires
        state.wf(),
        state.issued < u64::MAX,
        0 <= j < state.after(op).blocked.len(),
        state.after(op).blocked[j].state is Queued,
    ensures
        ({
            let waiter = state.after(op).blocked[j].waiter;
            let first = first_queued(state.blocked);
            &&& waiter.0 == state.issued + 1 || exists|k: int|
                0 <= k < state.blocked.len() && (#[trigger] state.blocked[k]).state is Queued
                    && state.blocked[k].waiter == waiter
            &&& op.receives() && state.wakes() ==> state.blocked[first].waiter.0 < waiter.0
        }),
{
    lemma_first_queued(state.blocked);
    let after = state.after(op);
    match op {
        MpscOp::OfferSend(_) => {
            if j < state.blocked.len() {
                assert(state.blocked[j] == after.blocked[j]);
            }
        },
        MpscOp::PollSend(waiter) => {
            lemma_position_sound(state.blocked, waiter);
            let i = position_of(state.blocked, waiter);
            if after.blocked.len() < state.blocked.len() {
                let k = if j < i {
                    j
                } else {
                    j + 1
                };
                assert(state.blocked[k] == after.blocked[j]);
            } else {
                assert(state.blocked[j] == after.blocked[j]);
            }
        },
        MpscOp::CancelSend(waiter) => {
            lemma_position_sound(state.blocked, waiter);
            let i = position_of(state.blocked, waiter);
            if after.blocked.len() < state.blocked.len() {
                let k = if j < i {
                    j
                } else {
                    j + 1
                };
                assert(state.blocked[k] == after.blocked[j]);
            } else {
                assert(state.blocked[j] == after.blocked[j]);
            }
        },
        MpscOp::Close | MpscOp::DropReceiver => {
            assert(after.blocked[j] == failed(state.blocked[j]));
        },
        _ => {
            assert(state.blocked[j] == after.blocked[j]);
        },
    }
}

/// A run keeps the invariant, and over any run parked sends enter the buffer
/// in the order in which they parked: waiter ids ascend in that order, and so
/// do the ids of those whose values entered.
pub proof fn law_parked_sends_enter_in_order<T>(state: MpscState<T>, ops: Seq<MpscOp<T>>)
    requires
        state.wf(),
        state.issued + ops.len() <= u64::MAX,
    ensures
        state.run(ops).wf(),
        state.run(ops).issued <= state.issued + ops.len(),
        forall|i: int, j: int|
            #![trigger state.woken(ops)[i], state.woken(ops)[j]]
            0 <= i < j < state.woken(ops).len() ==> state.woken(ops)[i].0 < state.woken(ops)[j].0,
{
    lemma_woken_in_order(state, ops);
}

proof fn lemma_woken_in_order<T>(state: MpscState<T>, ops: Seq<MpscOp<T>>)
    requires
        state.wf(),
        state.issued + ops.len() <= u64::MAX,
    ensures
        state.run(ops).wf(),
        state.run(ops).issued <= state.issued + ops.len(),
        before_the_waiting(state.woken(ops), state.run(ops)),
        forall|i: int, j: int|
            #![trigger state.woken(ops)[i], state.woken(ops)[j]]
            0 <= i < j < state.woken(ops).len() ==> state.woken(ops)[i].0 < state.woken(ops)[j].0,
    decreases ops.len(),
{
    if ops.len() > 0 {
        let front = ops.drop_last();
        let op = ops.last();
        let before = state.run(front);
        let after = state.run(ops);
        let earlier = state.woken(front);
        let woken = state.woken(ops);
        lemma_woken_in_order(state, front);
        lemma_call_keeps_wf(before, op);
        lemma_first_queued(before.blocked);
        assert forall|i: int, j: int|
            #![trigger woken[i], after.blocked[j]]
            0 <= i < woken.len() && 0 <= j < after.blocked.len()
                && after.blocked[j].state is Queued implies woken[i].0
            < after.blocked[j].waiter.0 by {
            lemma_still_waiting(before, op, j);
            if i < earlier.len() {
                assert(woken[i] == earlier[i]);
            }
        }
        assert forall|i: int| 0 <= i < woken.len() implies (#[trigger] woken[i]).0
            <= after.issued by {
            if i < earlier.len() {
                assert(woken[i] == earlier[i]);
            }
        }
        assert forall|i: int, j: int|
            #![trigger woken[i], woken[j]]
            0 <= i < j < woken.len() implies woken[i].0 < woken[j].0 by {
            assert(woken[i] == earlier[i]);
            if j < earlier.len() {
                assert(woken[j] == earlier[j]);
            }
        }
    }
}

/// Once the channel is closed it stays so, and only drains: whatever is called,
/// nothing is accepted any more, and what is received, followed by what is
/// left, is what was buffered.
pub proof fn law_closed_channel_only_drains<T>(state: MpscState<T>, ops: Seq<MpscOp<T>>)
    requires
        state.wf(),
        state.closed,
        state.issued + ops.len() <= u64::MAX,
    ensures
        state.run(ops).closed,
        state.accepted(ops) == Seq::<T>::empty(),
        state.woken(ops) == Seq::<WaiterId>::empty(),
        state.handed_out(ops) + state.run(ops).buffer == state.buffer,
    decreases ops.len(),
{
    if ops.len() > 0 {
        let front = ops.drop_last();
        let before = state.run(front);
        law_closed_channel_only_drains(state, front);
        lemma_woken_in_order(state, front);
        lemma_first_queued(before.blocked);
        assert(!before.wakes());
        assert(before.accepts(ops.last()) =~= Seq::<T>::empty());
        assert(state.accepted(ops) =~= Seq::<T>::empty());
    }
    law_received_then_buffered_is_accepted(state, ops);
    assert(state.buffer + state.accepted(ops) =~= state.buffer);
}

/// A send that waited when the channel closed fails once, with its own value:
/// looking it up hands the value back, and nothing is left under its id.
pub proof fn law_closing_fails_each_waiting_send_once<T>(state: MpscState<T>, i: int)
    requires
        state.wf(),
        0 <= i < state.blocked.len(),
        state.blocked[i].state is Queued,
    ensures
        ({
            let waiter = state.blocked[i].waiter;
            let closed = state.after(MpscOp::Close);
            let polled = closed.after(MpscOp::PollSend(waiter));
            &&& position_of(closed.blocked, waiter) == i
            &&& closed.blocked[i].state == BlockedState::Failed(state.blocked[i].state->Queued_0)
            &&& polled == closed.without(waiter)
            &&& position_of(polled.blocked, waiter) == polled.blocked.len()
        }),
{
    let waiter = state.blocked[i].waiter;
    let closed = state.after(MpscOp::Close);
    law_close_hands_values_back(state);
    lemma_position_at(closed, i);
    let polled = closed.after(MpscOp::PollSend(waiter));
    lemma_position_sound(polled.blocked, waiter);
    let left = position_of(polled.blocked, waiter);
    if left < polled.blocked.len() {
        let k = if left < i {
            left
        } else {
            left + 1
        };
        assert(polled.blocked[left] == closed.blocked[k]);
        assert(closed.blocked[i].waiter == waiter);
    }
}

/// Closing touches neither the buffer nor who waits nor who sends, takes no
/// further send, and is not undone or repeated by closing again.
pub proof fn law_closing_twice_is_closing_once<T>(state: MpscState<T>, value: T)
    requires
        state.wf(),
    ensures
        ({
            let closed = state.after(MpscOp::Close);
            &&& closed.closed
            &&& closed.buffer == state.buffer
            &&& closed.senders == state.senders
            &&& closed.blocked.map_values(|entry: BlockedSend<T>| entry.waiter)
                == state.blocked.map_values(|entry: BlockedSend<T>| entry.waiter)
            &&& closed.after(MpscOp::OfferSend(value)) == closed
            &&& closed.after(MpscOp::TrySend(value)) == closed
            &&& closed.after(MpscOp::Close) == closed
        }),
{
    let closed = state.after(MpscOp::Close);
    assert(closed.blocked.map_values(|entry: BlockedSend<T>| entry.waiter)
        =~= state.blocked.map_values(|entry: BlockedSend<T>| entry.waiter));
    assert(closed.after(MpscOp::Close).blocked =~= closed.blocked);
}

impl<T> BroadcastState<T> {
    /// The state after a run of calls.
    pub open spec fn run(self, ops: Seq<BroadcastOp<T>>) -> Self
        decreases ops.len(),
    {
        if ops.len() == 0 {
            self
        } else {
            self.run(ops.drop_last()).after(ops.last())
        }
    }

    /// The values that sends published over a run, oldest first.
    pub open spec fn published(self, ops: Seq<BroadcastOp<T>>) -> Seq<T>
        decreases ops.len(),
    {
        if ops.len() == 0 {
            Seq::empty()
        } else {
            self.published(ops.drop_last()) + self.run(ops.drop_last()).publishes(ops.last())
        }
    }

    /// The sequence numbers of the values handed to receiver `id` over a run.
    pub open spec fn seen(self, ops: Seq<BroadcastOp<T>>, id: int) -> Seq<nat>
        decreases ops.len(),
    {
        if ops.len() == 0 {
            Seq::empty()
        } else {
            let seen = self.seen(ops.drop_last(), id);
            match self.run(ops.drop_last()).receipt(id) {
                Receipt::Value { seq } if ops.last().receives(id) => seen.push(seq),
                _ => seen,
            }
        }
    }

    /// How many values receiver `id` was told over a run that it missed.
    pub open spec fn missed(self, ops: Seq<BroadcastOp<T>>, id: int) -> nat
        decreases ops.len(),
    {
        if ops.len() == 0 {
            0
        } else {
            let missed = self.missed(ops.drop_last(), id);
            match self.run(ops.drop_last()).receipt(id) {
                Receipt::Lagged { skipped } if ops.last().receives(id) => missed + skipped,
                _ => missed,
            }
        }
    }
}

/// A call keeps the invariant and the capacity, and adds what it publishes to
/// the history.
proof fn lemma_call_keeps_history<T>(state: BroadcastState<T>, op: BroadcastOp<T>)
    requires
        state.wf(),
        state.sent.len() < u64::MAX,
    ensures
        state.after(op).wf(),
        state.after(op).capacity == state.capacity,
        state.after(op).sent == state.sent + state.publishes(op),
        state.after(op).sent.len() <= state.sent.len() + 1,
{
    lemma_free_slot(state.slots);
    assert(state.after(op).sent =~= state.sent + state.publishes(op));
}

/// A run keeps the invariant and the capacity. The history grows by exactly
/// the values whose sends succeeded, so the next sequence number counts them;
/// the ring holds the newest of them, as many as fit.
pub proof fn law_ring_holds_the_newest<T>(state: BroadcastState<T>, ops: Seq<BroadcastOp<T>>)
    requires
        state.wf(),
        state.sent.len() + ops.len() <= u64::MAX,
    ensures
        state.run(ops).wf(),
        state.run(ops).capacity == state.capacity,
        state.run(ops).sent == state.sent + state.published(ops),
        state.run(ops).sent.len() <= state.sent.len() + ops.len(),
        state.run(ops).tail() == state.tail() + state.published(ops).len(),
        state.run(ops).ring().len() == if state.run(ops).tail() < state.capacity {
            state.run(ops).tail()
        } else {
            state.capacity
        },
        state.run(ops).ring() == (state.sent + state.published(ops)).skip(
            state.run(ops).tail() - state.run(ops).ring().len(),
        ),
    decreases ops.len(),
{
    if ops.len() > 0 {
        let front = ops.drop_last();
        law_ring_holds_the_newest(state, front);
        lemma_call_keeps_history(state.run(front), ops.last());
        assert(state.run(ops).sent =~= state.sent + state.published(ops));
    } else {
        assert(state.run(ops).sent =~= state.sent + state.published(ops));
    }
}

/// A live receiver's cursor moves only in its own receives: past the value it
/// is handed, or to the oldest retained value when it is told what it missed.
proof fn lemma_call_moves_cursor<T>(state: BroadcastState<T>, op: BroadcastOp<T>, id: int)
    requires
        state.wf(),
        state.live(id),
        op != BroadcastOp::<T>::DropReceiver(id),
    ensures
        state.after(op).live(id),
        state.after(op).cursor(id) == match state.receipt(id) {
            Receipt::Value { seq } if op.receives(id) => seq + 1,
            Receipt::Lagged { skipped } if op.receives(id) => state.cursor(id) + skipped,
            _ => state.cursor(id),
        },
{
    lemma_free_slot(state.slots);
}

/// Over any run in which receiver `id` stays, its cursor has moved by exactly
/// the values it was handed and those it was told that it missed, and is
/// never ahead of the tail. What it is handed comes in the order in which it
/// was sent, nothing twice, and nothing from before its cursor.
pub proof fn law_cursor_counts_what_was_seen_or_missed<T>(
    state: BroadcastState<T>,
    ops: Seq<BroadcastOp<T>>,
    id: int,
)
    requires
        state.wf(),
        state.live(id),
        state.sent.len() + ops.len() <= u64::MAX,
        !ops.contains(BroadcastOp::DropReceiver(id)),
    ensures
        state.run(ops).live(id),
        state.run(ops).cursor(id) == state.cursor(id) + state.seen(ops, id).len() + state.missed(
            ops,
            id,
        ),
        state.run(ops).cursor(id) <= state.run(ops).tail(),
        forall|i: int| 0 <= i < state.seen(ops, id).len() ==> state.cursor(id)
            <= #[trigger] state.seen(ops, id)[i] < state.run(ops).cursor(id),
        forall|i: int, j: int|
            #![trigger state.seen(ops, id)[i], state.seen(ops, id)[j]]
            0 <= i < j < state.seen(ops, id).len() ==> state.seen(ops, id)[i] < state.seen(
                ops,
                id,
            )[j],
    decreases ops.len(),
{
    law_ring_holds_the_newest(state, ops);
    if ops.len() > 0 {
        let front = ops.drop_last();
        let before = state.run(front);
        let earlier = state.seen(front, id);
        let seen = state.seen(ops, id);
        assert forall|op: BroadcastOp<T>| front.contains(op) implies ops.contains(op) by {
            let i = choose|i: int| 0 <= i < front.len() && front[i] == op;
            assert(ops[i] == op);
        }
        assert(ops.contains(ops[ops.len() - 1]));
        law_ring_holds_the_newest(state, front);
        law_cursor_counts_what_was_seen_or_missed(state, front, id);
        lemma_call_moves_cursor(before, ops.last(), id);
        assert forall|i: int| 0 <= i < seen.len() implies state.cursor(id)
            <= #[trigger] seen[i] < state.run(ops).cursor(id) by {
            if i < earlier.len() {
                assert(seen[i] == earlier[i]);
            }
        }
        assert forall|i: int, j: int|
            #![trigger seen[i], seen[j]]
            0 <= i < j < seen.len() implies seen[i] < seen[j] by {
            assert(seen[i] == earlier[i]);
            if j < earlier.len() {
                assert(seen[j] == earlier[j]);
            }
        }
    }
}

/// After a receiver was told what it missed, whatever the others do before
/// its next receive, it stands at the value that was the oldest retained: that
/// is what it is handed next, unless so much was sent meanwhile that this value
/// left the ring too.
pub proof fn law_lagged_receiver_resumes_at_the_oldest<T>(
    state: BroadcastState<T>,
    receive: BroadcastOp<T>,
    ops: Seq<BroadcastOp<T>>,
    id: int,
)
    requires
        state.wf(),
        state.receipt(id) is Lagged,
        receive.receives(id),
        state.sent.len() + ops.len() < u64::MAX,
        !ops.contains(BroadcastOp::DropReceiver(id)),
        forall|i: int| 0 <= i < ops.len() ==> !(#[trigger] ops[i]).receives(id),
    ensures
        ({
            let after = state.after(receive).run(ops);
            &&& after.cursor(id) == state.oldest()
            &&& after.receipt(id) == if after.oldest() > state.oldest() {
                Receipt::Lagged { skipped: (after.oldest() - state.oldest()) as nat }
            } else {
                Receipt::Value { seq: state.oldest() }
            }
        }),
{
    lemma_call_keeps_history(state, receive);
    lemma_call_moves_cursor(state, receive, id);
    let told = state.after(receive);
    law_ring_holds_the_newest(told, ops);
    law_cursor_counts_what_was_seen_or_missed(told, ops, id);
    lemma_nothing_received(told, ops, id);
}

/// A receiver that makes no receive sees nothing and is told of nothing.
proof fn lemma_nothing_received<T>(
    state: BroadcastState<T>,
    ops: Seq<BroadcastOp<T>>,
    id: int,
)
    requires
        forall|i: int| 0 <= i < ops.len() ==> !(#[trigger] ops[i]).receives(id),
    ensures
        state.seen(ops, id).len() == 0,
        state.missed(ops, id) == 0,
    decreases ops.len(),
{
    if ops.len() > 0 {
        let front = ops.drop_last();
        assert forall|i: int| 0 <= i < front.len() implies !(#[trigger] front[i]).receives(id) by {
            assert(front[i] == ops[i]);
        }
        assert(!ops[ops.len() - 1].receives(id));
        lemma_nothing_received(state, front, id);
    }
}

/// The three ways to receive agree. Each reports [`BroadcastState::receipt`],
/// and after any of them the same receivers are alive, each at the same
/// cursor.
pub proof fn law_polling_and_trying_agree<T>(
    state: BroadcastState<T>,
    id: int,
    waiter: WaiterId,
    other: int,
)
    requires
        state.wf(),
    ensures
        ({
            let polled = state.after(BroadcastOp::PollRecv(id));
            let waited = state.after(BroadcastOp::PollRecvWait(id, waiter));
            let tried = state.after(BroadcastOp::TryRecv(id));
            &&& polled.live(other) == tried.live(other)
            &&& waited.live(other) == tried.live(other)
            &&& tried.live(other) ==> polled.cursor(other) == tried.cursor(other)
                && waited.cursor(other) == tried.cursor(other)
            &&& polled.sent == tried.sent && waited.sent == tried.sent
            &&& polled.senders == tried.senders && waited.senders == tried.senders
            &&& polled.receipt(other) == tried.receipt(other)
            &&& waited.receipt(other) == tried.receipt(other)
        }),
{
}

/// A receiver that is caught up keeps its place in line: polling it again
/// changes nothing, so it goes on waiting under the same id.
pub proof fn law_polling_again_keeps_the_waiter<T>(state: BroadcastState<T>, id: int)
    requires
        state.wf(),
        state.issued < u64::MAX,
        state.receipt(id) is Empty,
    ensures
        ({
            let polled = state.after(BroadcastOp::PollRecv(id));
            &&& polled.receipt(id) is Empty
            &&& polled.slots[id].waiting is Some
            &&& polled.after(BroadcastOp::PollRecv(id)) == polled
        }),
{
}

impl<T> WatchState<T> {
    /// The state after a run of calls.
    pub open spec fn run(self, ops: Seq<WatchOp<T>>) -> Self
        decreases ops.len(),
    {
        if ops.len() == 0 {
            self
        } else {
            self.run(ops.drop_last()).after(ops.last())
        }
    }

    /// The version once everything that waits is committed.
    pub open spec fn version_to_come(self) -> nat {
        self.version + queued_values(self.queue).len()
    }
}

/// Settling parked operations never takes the version back.
proof fn lemma_settling_moves_on<T>(state: WatchState<T>, n: nat)
    ensures
        state.version <= state.settle_first(n).version,
    decreases n,
{
    if n > 0 {
        lemma_settling_moves_on(state, (n - 1) as nat);
    }
}

/// The version never decreases, whatever is called.
pub proof fn law_version_never_decreases<T>(state: WatchState<T>, ops: Seq<WatchOp<T>>)
    ensures
        state.version <= state.run(ops).version,
    decreases ops.len(),
{
    if ops.len() > 0 {
        law_version_never_decreases(state, ops.drop_last());
        let before = state.run(ops.drop_last());
        lemma_settling_moves_on(before, before.queue.len());
        lemma_settling_moves_on(before.unguarded(), before.queue.len());
    }
}

/// Settling one operation keeps the invariant and counts no version that was
/// not to come.
proof fn lemma_settle_keeps_wf<T>(state: WatchState<T>, i: int)
    requires
        state.wf(),
        0 <= i < state.queue.len(),
    ensures
        state.settle(i).wf(),
        state.settle(i).version_to_come() <= state.version_to_come(),
        state.settle(i).queue.len() == state.queue.len(),
        state.settle(i).receivers.len() == state.receivers.len(),
        state.settle(i).issued == state.issued,
{
    let after = state.settle(i);
    match state.queue[i].state {
        PendingState::Queued(_) => {
            lemma_queued_bound(state.queue, i);
            lemma_remove_queued_len(state.queue, i);
            lemma_update_keeps_queued(state.queue, i, after.queue[i]);
        },
        _ => {},
    }
}

proof fn lemma_settle_first_keeps_wf<T>(state: WatchState<T>, n: nat)
    requires
        state.wf(),
        n <= state.queue.len(),
    ensures
        state.settle_first(n).wf(),
        state.settle_first(n).version_to_come() <= state.version_to_come(),
        state.settle_first(n).queue.len() == state.queue.len(),
        state.settle_first(n).receivers.len() == state.receivers.len(),
        state.settle_first(n).issued == state.issued,
    decreases n,
{
    if n > 0 {
        lemma_settle_first_keeps_wf(state, (n - 1) as nat);
        lemma_settle_keeps_wf(state.settle_first((n - 1) as nat), n - 1);
    }
}

/// Taking an operation off the queue keeps the invariant.
proof fn lemma_without_keeps_wf<T>(state: WatchState<T>, i: int)
    requires
        state.wf(),
        0 <= i < state.queue.len(),
    ensures
        state.without(i).wf(),
        state.without(i).version_to_come() <= state.version_to_come(),
{
    lemma_remove_queued_len(state.queue, i);
}

/// A call keeps the invariant, as long as the counters last.
proof fn lemma_watch_call_keeps_wf<T>(state: WatchState<T>, op: WatchOp<T>)
    requires
        state.wf(),
        state.version_to_come() < u64::MAX,
        state.receivers.len() < usize::MAX,
        state.issued < u64::MAX,
    ensures
        state.after(op).wf(),
        state.after(op).version_to_come() <= state.version_to_come() + 1,
        state.after(op).receivers.len() <= state.receivers.len() + 1,
        state.after(op).issued <= state.issued + 1,
{
    let queue = state.queue;
    lemma_settle_first_keeps_wf(state, queue.len());
    lemma_settle_first_keeps_wf(state.unguarded(), queue.len());
    lemma_with_receiver(state, 0);
    match op {
        WatchOp::PollSend(waiter) | WatchOp::PollReplace(waiter) | WatchOp::CancelSend(waiter) => {
            let i = parked_at(queue, waiter);
            assert(queue.take(queue.len() as int) =~= queue);
            lemma_position_prefix(queue, waiter, queue.len() as int);
            if i < queue.len() {
                lemma_without_keeps_wf(state, i);
                lemma_without_keeps_wf(state.polled(waiter), i);
            }
        },
        WatchOp::Send(value) => {
            assert(state.park(PendingKind::Send, value).queue.drop_last() =~= queue);
        },
        WatchOp::SendReplace(value) => {
            assert(state.park(PendingKind::Replace, value).queue.drop_last()
                =~= queue);
        },
        _ => {},
    }
}

/// Over any run the invariant is kept, so what a receiver has seen is never
/// ahead of the value, and one that waits for a change has seen the latest.
pub proof fn law_receivers_are_never_ahead<T>(
    state: WatchState<T>,
    ops: Seq<WatchOp<T>>,
    id: u64,
)
    requires
        state.wf(),
        state.version_to_come() + ops.len() <= u64::MAX,
        state.receivers.len() + ops.len() <= usize::MAX,
        state.issued + ops.len() <= u64::MAX,
    ensures
        state.run(ops).wf(),
        state.run(ops).version_to_come() <= state.version_to_come() + ops.len(),
        state.run(ops).receivers.len() <= state.receivers.len() + ops.len(),
        state.run(ops).issued <= state.issued + ops.len(),
        state.run(ops).live(id) ==> state.run(ops).rx(id).version <= state.run(ops).version,
        state.run(ops).live(id) && state.run(ops).rx(id).awaiting ==> state.run(ops).rx(id).version
            == state.run(ops).version,
    decreases ops.len(),
{
    if ops.len() > 0 {
        law_receivers_are_never_ahead(state, ops.drop_last(), id);
        lemma_watch_call_keeps_wf(state.run(ops.drop_last()), ops.last());
    }
}

} // verus!

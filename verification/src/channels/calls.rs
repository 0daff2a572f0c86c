//! What each single call does to a channel, one part of it at a time.

use vstd::prelude::*;

use super::broadcast::{free_slot, lemma_free_slot, BroadcastOp, BroadcastState, Receipt};
use super::mpsc::{
    lemma_position_at, lemma_position_sound, BlockedState, MpscOp, MpscState, RecvPoll,
};
use super::waiter::WaiterId;
use super::watch::{
    free_slot as free_receiver, law_least_free_id_comes_next, lemma_with_receiver,
    position_of as parked_at, Pending, PendingState, WatchOp, WatchState,
};

verus! {

/// A send goes to the end of the buffer while there is room, comes back
/// unchanged from a closed channel, and otherwise goes to the end of the parked
/// sends under a fresh identity. An attempt does the same but never parks.
pub proof fn law_send_is_buffered_parked_or_refused<T>(state: MpscState<T>, value: T)
    requires
        state.issued < u64::MAX,
    ensures
        ({
            let offered = state.after(MpscOp::OfferSend(value));
            let tried = state.after(MpscOp::TrySend(value));
            &&& state.closed ==> offered == state && tried == state
            &&& !state.closed && state.buffer.len() < state.capacity ==> {
                &&& offered.buffer == state.buffer + seq![value]
                &&& offered.blocked == state.blocked
                &&& offered.issued == state.issued
                &&& tried == offered
            }
            &&& !state.closed && state.buffer.len() >= state.capacity ==> {
                &&& offered.buffer == state.buffer
                &&& offered.blocked.len() == state.blocked.len() + 1
                &&& offered.blocked.drop_last() == state.blocked
                &&& offered.blocked.last().state == BlockedState::Queued(value)
                &&& offered.blocked.last().waiter.0 == state.issued + 1
                &&& offered.issued == state.issued + 1
                &&& tried == state
            }
            &&& offered.capacity == state.capacity
            &&& offered.waiting_receiver == state.waiting_receiver
            &&& offered.senders == state.senders
            &&& offered.receiver_present == state.receiver_present
            &&& offered.closed == state.closed
        }),
{
    let offered = state.after(MpscOp::OfferSend(value));
    if !state.closed && state.buffer.len() >= state.capacity {
        assert(offered.blocked.drop_last() =~= state.blocked);
    }
    assert(state.buffer.push(value) =~= state.buffer + seq![value]);
}

/// Polling a parked send collects its outcome: one that still waits stays, one
/// that was settled leaves the line, and nothing else moves. Cancelling takes
/// it out in either case. A stranger's identity does nothing.
pub proof fn law_outcome_is_collected_once<T>(state: MpscState<T>, i: int, stranger: WaiterId)
    requires
        state.wf(),
        0 <= i < state.blocked.len(),
        forall|k: int|
            0 <= k < state.blocked.len() ==> (#[trigger] state.blocked[k]).waiter != stranger,
    ensures
        ({
            let waiter = state.blocked[i].waiter;
            let polled = state.after(MpscOp::PollSend(waiter));
            let cancelled = state.after(MpscOp::CancelSend(waiter));
            &&& state.blocked[i].state is Queued ==> polled == state
            &&& !(state.blocked[i].state is Queued) ==> polled == cancelled
            &&& cancelled.blocked.len() == state.blocked.len() - 1
            &&& cancelled.blocked.take(i) == state.blocked.take(i)
            &&& cancelled.blocked.skip(i) == state.blocked.skip(i + 1)
            &&& cancelled == (MpscState { blocked: cancelled.blocked, ..state })
            &&& state.after(MpscOp::PollSend(stranger)) == state
            &&& state.after(MpscOp::CancelSend(stranger)) == state
        }),
{
    let waiter = state.blocked[i].waiter;
    lemma_position_at(state, i);
    lemma_position_sound(state.blocked, stranger);
    let cancelled = state.after(MpscOp::CancelSend(waiter));
    assert(cancelled.blocked.take(i) =~= state.blocked.take(i));
    assert(cancelled.blocked.skip(i) =~= state.blocked.skip(i + 1));
}

/// A receive hands out the oldest value there is; with none it says so, and
/// waits as long as a value may still come: while the channel is open and a
/// sender is left.
pub proof fn law_receive_takes_the_oldest_or_waits<T>(state: MpscState<T>, waiter: WaiterId)
    ensures
        ({
            let (after, answer) = state.poll(waiter);
            &&& state.buffer.len() > 0 ==> {
                &&& answer == RecvPoll::Value(state.buffer.first())
                &&& state.waiting_receiver == Some(waiter) ==> after.waiting_receiver is None
                &&& state.waiting_receiver != Some(waiter) ==> after.waiting_receiver
                    == state.waiting_receiver
                &&& after.buffer == state.after(MpscOp::TryRecv).buffer
                &&& after.blocked == state.after(MpscOp::TryRecv).blocked
            }
            &&& state.buffer.len() == 0 && (state.closed || state.senders == 0) ==> {
                &&& answer is Disconnected
                &&& after.waiting_receiver is None
            }
            &&& state.buffer.len() == 0 && !state.closed && state.senders > 0 ==> {
                &&& answer == RecvPoll::<T>::Empty { waiter }
                &&& after.waiting_receiver == Some(waiter)
            }
            &&& state.buffer.len() == 0 ==> {
                &&& after.buffer == state.buffer
                &&& after.blocked == state.blocked
                &&& state.after(MpscOp::TryRecv) == state
            }
            &&& state.after(MpscOp::PollRecvWait(waiter)) == after
            &&& after.capacity == state.capacity
            &&& after.senders == state.senders
            &&& after.receiver_present == state.receiver_present
            &&& after.closed == state.closed
            &&& after.issued == state.issued
        }),
{
}

/// A receiver without an identity is given a fresh one when it polls; one that
/// already waits keeps the identity it has.
pub proof fn law_receiver_waits_under_one_identity<T>(state: MpscState<T>)
    requires
        state.issued < u64::MAX,
    ensures
        ({
            let after = state.after(MpscOp::PollRecv);
            let fresh = WaiterId((state.issued + 1) as u64);
            &&& state.waiting_receiver is Some ==> {
                &&& after == state.after(MpscOp::PollRecvWait(state.waiting_receiver->Some_0))
                &&& after.issued == state.issued
            }
            &&& state.waiting_receiver is None ==> {
                &&& after.issued == state.issued + 1
                &&& state.buffer.len() == 0 && !state.disconnected() ==> after.waiting_receiver
                    == Some(fresh)
                &&& state.buffer.len() > 0 || state.disconnected() ==> after.waiting_receiver
                    is None
                &&& after.buffer == state.after(MpscOp::PollRecvWait(fresh)).buffer
                &&& after.blocked == state.after(MpscOp::PollRecvWait(fresh)).blocked
            }
        }),
{
}

/// Senders are counted up and down, never below none; leaving is all that the
/// receiver adds to closing; and neither touches what is buffered.
pub proof fn law_ends_come_and_go<T>(state: MpscState<T>)
    ensures
        ({
            let joined = state.after(MpscOp::AddSender);
            let left = state.after(MpscOp::DropSender);
            let closed = state.after(MpscOp::Close);
            let gone = state.after(MpscOp::DropReceiver);
            &&& joined == (MpscState { senders: state.senders + 1, ..state })
            &&& joined.after(MpscOp::DropSender) == state
            &&& left.senders + 1 == state.senders || left.senders == 0 && state.senders == 0
            &&& left == (MpscState { senders: left.senders, ..state })
            &&& closed.closed
            &&& closed.buffer == state.buffer
            &&& closed.receiver_present == state.receiver_present
            &&& closed.waiting_receiver == state.waiting_receiver
            &&& closed.senders == state.senders
            &&& closed.issued == state.issued
            &&& closed.blocked.len() == state.blocked.len()
            &&& !gone.receiver_present
            &&& gone == (MpscState { receiver_present: false, ..closed })
        }),
{
}

/// A value is published while anybody listens, and otherwise nothing happens.
pub proof fn law_broadcast_needs_a_listener<T>(state: BroadcastState<T>, value: T)
    ensures
        ({
            let after = state.after(BroadcastOp::Send(value));
            &&& state.receivers() == 0 ==> after == state
            &&& state.receivers() > 0 ==> {
                &&& after.sent == state.sent + seq![value]
                &&& after == (BroadcastState { sent: after.sent, ..state })
            }
        }),
{
    assert(state.sent.push(value) =~= state.sent + seq![value]);
}

/// A new receiver starts at the tail, a cloned one where its source stands; it
/// takes the least free place, and everybody else stays as they are.
pub proof fn law_receiver_takes_the_least_free_place<T>(
    state: BroadcastState<T>,
    source: int,
    other: int,
)
    requires
        state.wf(),
        state.live(source),
        0 <= other < state.slots.len(),
        other != free_slot(state.slots),
    ensures
        ({
            let id = free_slot(state.slots);
            let joined = state.after(BroadcastOp::Subscribe);
            let cloned = state.after(BroadcastOp::CloneReceiver(source));
            &&& !state.live(id)
            &&& other < id ==> state.live(other)
            &&& joined.live(id) && cloned.live(id)
            &&& joined.cursor(id) == state.tail()
            &&& cloned.cursor(id) == state.cursor(source)
            &&& joined.slots[id].waiting is None && cloned.slots[id].waiting is None
            &&& joined.slots[other] == state.slots[other]
            &&& cloned.slots[other] == state.slots[other]
            &&& joined == (BroadcastState { slots: joined.slots, ..state })
            &&& cloned == (BroadcastState { slots: cloned.slots, ..state })
        }),
{
    lemma_free_slot(state.slots);
    assert(state.slots[source].next_seq <= state.sent.len());
    if other < free_slot(state.slots) {
        assert(state.slots[other].alive);
    }
}

/// Only who is there can be cloned or dropped; dropping takes one receiver
/// away and leaves the others alone.
pub proof fn law_dropping_takes_one_away<T>(state: BroadcastState<T>, id: int, other: int)
    requires
        0 <= other < state.slots.len(),
        other != id,
    ensures
        ({
            let after = state.after(BroadcastOp::DropReceiver(id));
            &&& !state.live(id) ==> after == state
            &&& !state.live(id) ==> state.after(BroadcastOp::CloneReceiver(id)) == state
            &&& !after.live(id)
            &&& after.slots[other] == state.slots[other]
            &&& after.slots.len() == state.slots.len()
            &&& state.live(id) ==> after.slots[id].waiting is None
            &&& after == (BroadcastState { slots: after.slots, ..state })
        }),
{
}

/// What a receive answers follows from where the receiver stands: before the
/// oldest kept value it lags by the distance, inside the ring it gets the value
/// it stands at, at the end it waits while senders are left.
pub proof fn law_receipt_tells_where_the_receiver_stands<T>(state: BroadcastState<T>, id: int)
    requires
        state.wf(),
        state.live(id),
    ensures
        ({
            let receipt = state.receipt(id);
            let behind = state.sent.len() - state.slots[id].next_seq;
            &&& behind > state.capacity ==> receipt == Receipt::Lagged {
                skipped: (behind - state.capacity) as nat,
            }
            &&& 0 < behind <= state.capacity ==> receipt == Receipt::Value {
                seq: state.slots[id].next_seq as nat,
            }
            &&& behind == 0 && state.senders > 0 ==> receipt is Empty
            &&& behind == 0 && state.senders == 0 ==> receipt is Closed
        }),
{
    assert(state.slots[id].next_seq <= state.sent.len());
}

/// A receive moves the receiver past the value it got, or up to the oldest one
/// it can still get; otherwise it stays. An attempt leaves nobody waiting, a
/// poll waits where there is nothing yet, and nobody else is touched.
pub proof fn law_receive_moves_the_receiver<T>(
    state: BroadcastState<T>,
    id: int,
    waiter: WaiterId,
    other: int,
)
    requires
        state.wf(),
        state.issued < u64::MAX,
        state.live(id),
        0 <= other < state.slots.len(),
        other != id,
    ensures
        ({
            let behind = state.sent.len() - state.slots[id].next_seq;
            let tried = state.after(BroadcastOp::TryRecv(id));
            let polled = state.after(BroadcastOp::PollRecv(id));
            let waited = state.after(BroadcastOp::PollRecvWait(id, waiter));
            &&& tried.live(id)
            &&& behind > state.capacity ==> tried.slots[id].next_seq == state.sent.len()
                - state.capacity
            &&& 0 < behind <= state.capacity ==> tried.slots[id].next_seq
                == state.slots[id].next_seq + 1
            &&& behind == 0 ==> tried.slots[id].next_seq == state.slots[id].next_seq
            &&& tried.slots[id].waiting is None
            &&& behind > 0 || state.senders == 0 ==> polled == tried && waited == tried
            &&& behind == 0 && state.senders > 0 ==> {
                &&& waited.slots[id].waiting == Some(waiter)
                &&& waited.issued == state.issued
                &&& state.slots[id].waiting is Some ==> polled == state
                &&& state.slots[id].waiting is None ==> {
                    &&& polled.slots[id].waiting == Some(WaiterId((state.issued + 1) as u64))
                    &&& polled.issued == state.issued + 1
                }
                &&& waited.live(id) && polled.live(id)
                &&& waited.slots[id].next_seq == state.slots[id].next_seq
                &&& polled.slots[id].next_seq == state.slots[id].next_seq
            }
            &&& tried.slots[other] == state.slots[other]
            &&& polled.slots[other] == state.slots[other]
            &&& waited.slots[other] == state.slots[other]
            &&& tried == (BroadcastState { slots: tried.slots, ..state })
            &&& waited == (BroadcastState { slots: waited.slots, ..state })
            &&& polled == (BroadcastState {
                slots: polled.slots,
                issued: polled.issued,
                ..state
            })
        }),
{
    assert(state.slots[id].next_seq <= state.sent.len());
}

/// A receiver that is gone gets nothing and changes nothing.
pub proof fn law_nobody_receives_nothing<T>(state: BroadcastState<T>, id: int, waiter: WaiterId)
    requires
        0 <= id < state.slots.len(),
        !state.live(id),
    ensures
        state.receipt(id) is Closed,
        state.after(BroadcastOp::TryRecv(id)) == state,
        state.after(BroadcastOp::PollRecv(id)) == state,
        state.after(BroadcastOp::PollRecvWait(id, waiter)) == state,
{
}

/// Senders of a broadcast are counted up and down, never below none.
pub proof fn law_broadcasters_come_and_go<T>(state: BroadcastState<T>)
    ensures
        ({
            let joined = state.after(BroadcastOp::AddSender);
            let left = state.after(BroadcastOp::DropSender);
            &&& joined == (BroadcastState { senders: state.senders + 1, ..state })
            &&& joined.after(BroadcastOp::DropSender) == state
            &&& left.senders + 1 == state.senders || left.senders == 0 && state.senders == 0
            &&& left == (BroadcastState { senders: left.senders, ..state })
        }),
{
}

/// With no guard out and nothing parked a value is committed at once; behind a
/// guard, or behind a send that waits, it goes to the end of the queue. A plain
/// send that nobody would see changes nothing, a replacement goes through
/// anyway.
pub proof fn law_value_is_committed_or_parked<T>(state: WatchState<T>, value: T, i: int)
    requires
        state.issued < u64::MAX,
    ensures
        ({
            let sent = state.after(WatchOp::Send(value));
            let replaced = state.after(WatchOp::SendReplace(value));
            &&& state.receiver_count() == 0 ==> sent == state
            &&& state.readers == 0 && state.queue.len() == 0 ==> {
                &&& replaced.value == value
                &&& replaced.version == state.version + 1
                &&& replaced.queue == state.queue
                &&& replaced.receivers.len() == state.receivers.len()
                &&& replaced.issued == state.issued
                &&& state.receiver_count() > 0 ==> sent == replaced
            }
            &&& state.readers > 0 || (0 <= i < state.queue.len() && state.queue[i].state
                is Queued) ==> {
                &&& replaced.queue.len() == state.queue.len() + 1
                &&& replaced.queue.drop_last() == state.queue
                &&& replaced.queue.last().state == PendingState::Queued(value)
                &&& replaced.queue.last().kind is Replace
                &&& replaced.queue.last().waiter.0 == state.issued + 1
                &&& replaced.issued == state.issued + 1
                &&& replaced.value == state.value
                &&& replaced.version == state.version
                &&& replaced.receivers == state.receivers
                &&& state.receiver_count() > 0 ==> {
                    &&& sent.queue.len() == state.queue.len() + 1
                    &&& sent.queue.drop_last() == state.queue
                    &&& sent.queue.last().state == PendingState::Queued(value)
                    &&& sent.queue.last().kind is Send
                    &&& sent.queue.last().waiter.0 == state.issued + 1
                    &&& sent == (WatchState { queue: sent.queue, ..replaced })
                }
            }
            &&& sent.readers == state.readers && replaced.readers == state.readers
            &&& sent.sender_alive == state.sender_alive
            &&& replaced.sender_alive == state.sender_alive
        }),
{
    let sent = state.after(WatchOp::Send(value));
    let replaced = state.after(WatchOp::SendReplace(value));
    if state.readers > 0 || (0 <= i < state.queue.len() && state.queue[i].state is Queued) {
        assert(!state.clear()) by {
            if state.readers == 0 {
                assert(state.queue[i].state is Queued);
            }
        }
        assert(replaced.queue.drop_last() =~= state.queue);
        if state.receiver_count() > 0 {
            assert(sent.queue.drop_last() =~= state.queue);
        }
    }
}

/// A change wakes exactly the receivers that wait for one, and they have then
/// seen it; everybody else stays as they were.
pub proof fn law_change_wakes_who_waits<T>(state: WatchState<T>, i: int)
    requires
        state.version < u64::MAX,
        0 <= i < state.receivers.len(),
    ensures
        ({
            let after = state.after(WatchOp::MarkChanged);
            &&& after.version == state.version + 1
            &&& after.value == state.value
            &&& after.receivers.len() == state.receivers.len()
            &&& after.receivers[i].alive == state.receivers[i].alive
            &&& state.receivers[i].awaiting ==> {
                &&& !after.receivers[i].awaiting
                &&& after.receivers[i].waiter is None
                &&& after.receivers[i].version == after.version
            }
            &&& !state.receivers[i].awaiting ==> after.receivers[i] == state.receivers[i]
            &&& after == (WatchState {
                version: after.version,
                receivers: after.receivers,
                ..state
            })
        }),
{
}

/// Modifying in place waits for nobody: behind a guard or a parked send it does
/// nothing at all. Otherwise the value is there, and only what says that it
/// changed something counts as a change.
pub proof fn law_modifying_counts_only_as_it_says<T>(state: WatchState<T>, value: T)
    ensures
        ({
            let changed = state.after(WatchOp::Modify { value, changed: true });
            let quiet = state.after(WatchOp::Modify { value, changed: false });
            &&& state.readers > 0 || state.queue.len() > 0 ==> changed == state && quiet == state
            &&& state.readers == 0 && state.queue.len() == 0 ==> {
                &&& changed == (WatchState { value, ..state.after(WatchOp::MarkChanged) })
                &&& quiet == (WatchState { value, ..state })
            }
        }),
{
}

/// Guards are counted; only when the last one goes are the parked sends
/// settled, in the order in which they were parked.
pub proof fn law_last_guard_settles_the_queue<T>(state: WatchState<T>)
    ensures
        ({
            let looking = state.after(WatchOp::BeginBorrow);
            let released = state.after(WatchOp::EndBorrow);
            &&& looking == (WatchState { readers: state.readers + 1, ..state })
            &&& state.readers > 1 ==> released == (WatchState {
                readers: (state.readers - 1) as nat,
                ..state
            })
            &&& state.readers <= 1 ==> released == (WatchState { readers: 0, ..state }).settle_first(
                state.queue.len(),
            )
            &&& state.readers > 0 ==> looking.after(WatchOp::EndBorrow) == state
        }),
{
}

/// What settling does to one parked operation: a send that nobody is left to
/// see is handed back, anything else becomes the value, keeps what it replaced
/// and counts as a change. What is already settled stays.
pub proof fn law_settling_commits_or_hands_back<T>(state: WatchState<T>, i: int, k: int)
    requires
        0 <= i < state.queue.len(),
        0 <= k < state.queue.len(),
        k != i,
    ensures
        ({
            let after = state.settle(i);
            let parked = state.queue[i];
            &&& !(parked.state is Queued) ==> after == state
            &&& parked.state is Queued && parked.kind is Send && state.receiver_count() == 0 ==> {
                &&& after.queue[i].state == PendingState::Failed(parked.state->Queued_0)
                &&& after == (WatchState { queue: after.queue, ..state })
            }
            &&& parked.state is Queued && (parked.kind is Replace || state.receiver_count() > 0)
                ==> {
                &&& after.queue[i].state == PendingState::Committed(state.value)
                &&& after.value == parked.state->Queued_0
                &&& after.version == state.after(WatchOp::MarkChanged).version
                &&& after.receivers == state.after(WatchOp::MarkChanged).receivers
            }
            &&& after.queue[i].waiter == parked.waiter
            &&& after.queue[i].kind == parked.kind
            &&& after.queue[k] == state.queue[k]
            &&& after.queue.len() == state.queue.len()
            &&& after.readers == state.readers
            &&& after.sender_alive == state.sender_alive
            &&& after.issued == state.issued
        }),
{
}

/// Polling a parked operation collects its outcome and takes it out of the
/// queue; behind a guard it goes on waiting. Cancelling takes it out whatever
/// became of it.
pub proof fn law_parked_value_is_collected_once<T>(state: WatchState<T>, i: int)
    requires
        state.wf(),
        0 <= i < state.queue.len(),
    ensures
        ({
            let waiter = state.queue[i].waiter;
            let polled = state.after(WatchOp::PollSend(waiter));
            let cancelled = state.after(WatchOp::CancelSend(waiter));
            &&& state.after(WatchOp::PollReplace(waiter)) == polled
            &&& state.readers > 0 && state.queue[i].state is Queued ==> polled == state
            &&& !(state.queue[i].state is Queued) ==> polled == cancelled
            &&& cancelled.queue.len() == state.queue.len() - 1
            &&& cancelled.queue.take(i) == state.queue.take(i)
            &&& cancelled.queue.skip(i) == state.queue.skip(i + 1)
            &&& cancelled == (WatchState { queue: cancelled.queue, ..state })
        }),
{
    let waiter = state.queue[i].waiter;
    lemma_parked_at(state, i);
    let cancelled = state.after(WatchOp::CancelSend(waiter));
    assert(cancelled.queue.take(i) =~= state.queue.take(i));
    assert(cancelled.queue.skip(i) =~= state.queue.skip(i + 1));
}

/// Each parked operation is found under its own identity.
proof fn lemma_parked_at<T>(state: WatchState<T>, i: int)
    requires
        state.wf(),
        0 <= i < state.queue.len(),
    ensures
        parked_at(state.queue, state.queue[i].waiter) == i,
{
    lemma_first_parked(state.queue, state.queue[i].waiter, i);
    let p = parked_at(state.queue, state.queue[i].waiter);
    if p < i {
        assert(state.queue[p].waiter.0 < state.queue[i].waiter.0);
    }
}

/// A parked operation is found, at its place or before, under the identity
/// asked for.
proof fn lemma_first_parked<T>(queue: Seq<Pending<T>>, waiter: WaiterId, i: int)
    requires
        0 <= i < queue.len(),
        queue[i].waiter == waiter,
    ensures
        0 <= parked_at(queue, waiter) <= i,
        queue[parked_at(queue, waiter)].waiter == waiter,
    decreases queue.len(),
{
    let front = queue.drop_last();
    if i < queue.len() - 1 {
        assert(front[i] == queue[i]);
        lemma_first_parked(front, waiter, i);
        assert(front[parked_at(front, waiter)] == queue[parked_at(front, waiter)]);
    } else {
        lemma_parked_bound(front, waiter);
        if parked_at(front, waiter) < front.len() {
            assert(front[parked_at(front, waiter)] == queue[parked_at(front, waiter)]);
        }
    }
}

/// The search ends inside the queue at what was asked for, or behind it.
proof fn lemma_parked_bound<T>(queue: Seq<Pending<T>>, waiter: WaiterId)
    ensures
        0 <= parked_at(queue, waiter) <= queue.len(),
        parked_at(queue, waiter) < queue.len() ==> queue[parked_at(queue, waiter)].waiter
            == waiter,
    decreases queue.len(),
{
    if queue.len() > 0 {
        let front = queue.drop_last();
        lemma_parked_bound(front, waiter);
        if parked_at(front, waiter) < front.len() {
            assert(front[parked_at(front, waiter)] == queue[parked_at(front, waiter)]);
        }
    }
}

/// A new receiver has seen the value that is there, a cloned one what its
/// source has seen; neither waits, and everybody else stays as they are.
pub proof fn law_watcher_starts_where_it_joins<T>(state: WatchState<T>, source: u64, other: u64)
    requires
        state.wf(),
        state.receivers.len() < usize::MAX,
        state.live(source),
        state.live(other),
    ensures
        ({
            let id = (free_receiver(state.receivers) + 1) as u64;
            let joined = state.after(WatchOp::Subscribe);
            let cloned = state.after(WatchOp::CloneReceiver(source));
            &&& !state.live(id)
            &&& joined.live(id) && cloned.live(id)
            &&& joined.rx(id).version == state.version
            &&& cloned.rx(id).version == state.rx(source).version
            &&& !joined.rx(id).awaiting && !cloned.rx(id).awaiting
            &&& joined.rx(id).waiter is None && cloned.rx(id).waiter is None
            &&& joined.live(other) && cloned.live(other)
            &&& joined.rx(other) == state.rx(other)
            &&& cloned.rx(other) == state.rx(other)
            &&& joined == (WatchState { receivers: joined.receivers, ..state })
            &&& cloned == (WatchState { receivers: cloned.receivers, ..state })
        }),
{
    law_least_free_id_comes_next(state);
    lemma_with_receiver(state, state.version as u64);
    lemma_with_receiver(state, state.rx(source).version);
}

/// Who waits for a change gets one at once if it missed any, is told that none
/// will come once the sender is gone, and otherwise waits under one identity.
pub proof fn law_waiting_for_a_change<T>(state: WatchState<T>, id: u64, waiter: WaiterId)
    requires
        state.wf(),
        state.issued < u64::MAX,
        state.live(id),
    ensures
        ({
            let polled = state.after(WatchOp::PollChanged(id));
            let again = state.after(WatchOp::PollChangedWait(id, waiter));
            &&& state.rx(id).version < state.version ==> {
                &&& polled.rx(id).version == state.version
                &&& !polled.rx(id).awaiting
                &&& polled.rx(id).waiter is None
                &&& polled.rx(id).alive
                &&& again == polled
            }
            &&& state.rx(id).version == state.version ==> {
                &&& again == state
                &&& !state.sender_alive ==> polled == state
                &&& state.sender_alive ==> {
                    &&& polled.rx(id).awaiting
                    &&& polled.rx(id).alive
                    &&& polled.rx(id).version == state.version
                    &&& state.rx(id).waiter is Some ==> {
                        &&& polled.rx(id).waiter == state.rx(id).waiter
                        &&& polled.issued == state.issued
                    }
                    &&& state.rx(id).waiter is None ==> {
                        &&& polled.rx(id).waiter is Some
                        &&& polled.rx(id).waiter->Some_0.0 == state.issued + 1
                        &&& polled.issued == state.issued + 1
                    }
                }
            }
        }),
{
}

/// Giving up on a change, catching up silently and looking at the value each
/// touch one part of the receiver.
pub proof fn law_receiver_marks_what_it_saw<T>(state: WatchState<T>, id: u64)
    requires
        state.wf(),
        state.live(id),
    ensures
        ({
            let cancelled = state.after(WatchOp::CancelChanged(id)).rx(id);
            let unchanged = state.after(WatchOp::MarkUnchanged(id)).rx(id);
            let seen = state.after(WatchOp::MarkSeen(id)).rx(id);
            let dropped = state.after(WatchOp::DropReceiver(id)).rx(id);
            &&& !cancelled.awaiting && cancelled.waiter is None && cancelled.alive
            &&& cancelled.version == state.rx(id).version
            &&& !unchanged.awaiting && unchanged.waiter is None && unchanged.alive
            &&& unchanged.version == state.version
            &&& seen.version == state.version
            &&& seen.awaiting == state.rx(id).awaiting
            &&& seen.waiter == state.rx(id).waiter
            &&& seen.alive
            &&& !dropped.alive && !dropped.awaiting && dropped.waiter is None
        }),
{
}

/// The calls that belong to one receiver: all but sending and the like.
pub open spec fn is_call_of<T>(op: WatchOp<T>, id: u64) -> bool {
    match op {
        WatchOp::DropReceiver(receiver) => receiver == id,
        WatchOp::PollChanged(receiver) => receiver == id,
        WatchOp::PollChangedWait(receiver, _) => receiver == id,
        WatchOp::CancelChanged(receiver) => receiver == id,
        WatchOp::MarkUnchanged(receiver) => receiver == id,
        WatchOp::MarkSeen(receiver) => receiver == id,
        _ => false,
    }
}

/// A receiver's call touches that receiver alone, and that of one who is not
/// there touches nothing.
pub proof fn law_receivers_keep_to_themselves<T>(
    state: WatchState<T>,
    op: WatchOp<T>,
    id: u64,
    other: u64,
)
    requires
        is_call_of(op, id),
        1 <= other <= state.receivers.len(),
        other != id,
    ensures
        ({
            let after = state.after(op);
            &&& !state.live(id) ==> after == state
            &&& after.rx(other) == state.rx(other)
            &&& after.receivers.len() == state.receivers.len()
            &&& after.value == state.value
            &&& after.version == state.version
            &&& after.readers == state.readers
            &&& after.queue == state.queue
            &&& after.sender_alive == state.sender_alive
        }),
{
}

/// The sender leaves once and takes nothing along.
pub proof fn law_sender_leaves_the_value<T>(state: WatchState<T>)
    ensures
        !state.after(WatchOp::DropSender).sender_alive,
        state.after(WatchOp::DropSender) == (WatchState { sender_alive: false, ..state }),
{
}

} // verus!

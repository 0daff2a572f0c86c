//! The watch game is a watch channel: whatever is done in the game, a channel
//! that goes through the operations behind it stays in step with it.

use vstd::prelude::*;

use super::watch::{any_borrowing, index_of, lemma_index_of, WatchGame};
use crate::channels::waiter::WaiterId;
use crate::channels::watch::{
    free_slot, lemma_count_update, lemma_same_alive_same_count, lemma_with_receiver, live_count,
    queued_values, PendingKind, PendingState, Rx, WatchState,
};
use crate::protocol::{RxInfo, WatchWire};

verus! {

/// The channel that the game's cell stands for.
pub type Cell = WatchState<Option<char>>;

/// How many receivers hold a read guard.
pub open spec fn guards(receivers: Seq<RxInfo>) -> nat
    decreases receivers.len(),
{
    if receivers.len() == 0 {
        0
    } else {
        guards(receivers.drop_last()) + if receivers.last().borrowing {
            1nat
        } else {
            0
        }
    }
}

/// A receiver of the game and a receiver of the channel have seen the same
/// and wait for the same.
pub open spec fn same_receiver(info: RxInfo, rx: Rx) -> bool {
    &&& rx.alive
    &&& rx.version == info.version
    &&& rx.awaiting == info.awaiting
    &&& rx.waiter is Some ==> rx.awaiting
}

/// The game and the channel are in the same state; the receiver at position
/// `i` is the channel's receiver `ids[i]`.
pub open spec fn agrees(game: WatchGame, channel: Cell, ids: Seq<u64>) -> bool {
    &&& channel.wf()
    &&& channel.sender_alive
    &&& channel.value == game.value
    &&& channel.version == game.version
    &&& channel.readers == guards(game.receivers)
    &&& channel.receiver_count() == game.receivers.len()
    &&& ids.len() == game.receivers.len()
    &&& forall|i: int|
        0 <= i < ids.len() ==> 1 <= #[trigger] ids[i] <= channel.receivers.len() && same_receiver(
            game.receivers[i],
            channel.receivers[ids[i] - 1],
        )
    &&& forall|i: int, j: int|
        #![trigger ids[i], ids[j]]
        0 <= i < j < ids.len() ==> ids[i] != ids[j]
    &&& match game.pending_send {
        Some(ch) => {
            &&& channel.queue.len() == 1
            &&& channel.queue[0].kind is Send
            &&& channel.queue[0].state == PendingState::Queued(Some(ch))
        },
        None => channel.queue.len() == 0,
    }
}

/// A channel holding `initial`, its first receiver dropped again.
pub open spec fn opened(initial: Option<char>) -> Cell {
    WatchState {
        value: initial,
        version: 0,
        readers: 0,
        queue: Seq::empty(),
        receivers: seq![Rx { version: 0, awaiting: false, waiter: None, alive: false }],
        sender_alive: true,
        issued: 0,
    }
}

/// What a send does to the channel: it is rejected without receivers, parks
/// behind guards, and commits otherwise.
pub open spec fn sent(channel: Cell, value: Option<char>) -> Cell {
    if channel.receiver_count() == 0 {
        channel
    } else if channel.readers == 0 && !channel.any_queued() {
        channel.commit(value)
    } else {
        channel.park(PendingKind::Send, value)
    }
}

/// What a released guard does to the channel, once the sender has collected
/// the outcome of a send that was parked behind it.
pub open spec fn released(channel: Cell) -> Cell {
    let left = WatchState { readers: (channel.readers - 1) as nat, ..channel }.drained();
    if left.queue.len() > 0 && !(left.queue[0].state is Queued) {
        left.without(0)
    } else {
        left
    }
}

/// What toggling `changed` does to the channel: an outstanding one is
/// cancelled, any other is polled.
pub open spec fn toggled(channel: Cell, id: u64) -> Cell {
    let rx = channel.rx(id);
    if rx.awaiting {
        channel.with_rx(id, Rx { awaiting: false, waiter: None, ..rx })
    } else if rx.version < channel.version {
        channel.with_rx(
            id,
            Rx { version: channel.version as u64, awaiting: false, waiter: None, alive: true },
        )
    } else {
        let waiter = WaiterId((channel.issued + 1) as u64);
        WatchState {
            issued: channel.issued + 1,
            ..channel.with_rx(id, Rx { awaiting: true, waiter: Some(waiter), ..rx })
        }
    }
}

/// What dropping a receiver does to the channel.
pub open spec fn dropped(channel: Cell, id: u64) -> Cell {
    channel.with_rx(
        id,
        Rx { alive: false, awaiting: false, waiter: None, ..channel.rx(id) },
    )
}

/// The channel operations behind a command, and the ids after it. A send of
/// the value that is already there, and one issued while another is pending,
/// never reach the channel.
pub open spec fn channel_step(
    game: WatchGame,
    channel: Cell,
    ids: Seq<u64>,
    wire: WatchWire,
    conn: u64,
) -> (Cell, Seq<u64>) {
    match wire {
        WatchWire::Send { ch } if game.presenter == Some(conn) => {
            let reaches = game.pending_send is None && (any_borrowing(game.receivers)
                || game.value != Some(ch));
            if reaches {
                (sent(channel, Some(ch)), ids)
            } else {
                (channel, ids)
            }
        },
        WatchWire::NewReceiver => (
            channel.with_receiver(channel.version as u64),
            ids.push((free_slot(channel.receivers) + 1) as u64),
        ),
        WatchWire::CloneReceiver { rx } if index_of(game.receivers, rx) < game.receivers.len() => (
            channel.with_receiver(channel.rx(ids[index_of(game.receivers, rx)]).version),
            ids.push((free_slot(channel.receivers) + 1) as u64),
        ),
        WatchWire::AwaitChange { rx } if game.operable(rx, conn) => (
            toggled(channel, ids[index_of(game.receivers, rx)]),
            ids,
        ),
        WatchWire::LookInside { rx } if game.operable(rx, conn) => {
            if game.receivers[index_of(game.receivers, rx)].borrowing {
                (released(channel), ids)
            } else {
                (WatchState { readers: channel.readers + 1, ..channel }, ids)
            }
        },
        WatchWire::DropReceiver { rx } if game.operable(rx, conn) => {
            let i = index_of(game.receivers, rx);
            let gone = dropped(channel, ids[i]);
            if game.receivers[i].borrowing {
                (released(gone), ids.remove(i))
            } else {
                (gone, ids.remove(i))
            }
        },
        _ => (channel, ids),
    }
}

proof fn lemma_guards_update(receivers: Seq<RxInfo>, i: int, info: RxInfo)
    requires
        0 <= i < receivers.len(),
    ensures
        guards(receivers.update(i, info)) + (if receivers[i].borrowing {
            1nat
        } else {
            0
        }) == guards(receivers) + (if info.borrowing {
            1nat
        } else {
            0
        }),
    decreases receivers.len(),
{
    let front = receivers.drop_last();
    if i < receivers.len() - 1 {
        lemma_guards_update(front, i, info);
        assert(receivers.update(i, info).drop_last() =~= front.update(i, info));
    } else {
        assert(receivers.update(i, info).drop_last() =~= front);
    }
}

proof fn lemma_guards_remove(receivers: Seq<RxInfo>, i: int)
    requires
        0 <= i < receivers.len(),
    ensures
        guards(receivers.remove(i)) + (if receivers[i].borrowing {
            1nat
        } else {
            0
        }) == guards(receivers),
    decreases receivers.len(),
{
    let front = receivers.drop_last();
    if i < receivers.len() - 1 {
        lemma_guards_remove(front, i);
        assert(receivers.remove(i).drop_last() =~= front.remove(i));
    } else {
        assert(receivers.remove(i) =~= front);
    }
}

proof fn lemma_guards_same(a: Seq<RxInfo>, b: Seq<RxInfo>)
    requires
        a.len() == b.len(),
        forall|i: int| 0 <= i < a.len() ==> (#[trigger] a[i]).borrowing == b[i].borrowing,
    ensures
        guards(a) == guards(b),
    decreases a.len(),
{
    if a.len() > 0 {
        assert(a.last().borrowing == b.last().borrowing);
        assert forall|i: int| 0 <= i < a.drop_last().len() implies (
        #[trigger] a.drop_last()[i]).borrowing == b.drop_last()[i].borrowing by {
            assert(a[i].borrowing == b[i].borrowing);
        }
        lemma_guards_same(a.drop_last(), b.drop_last());
    }
}

/// Guards are out exactly if somebody holds one.
proof fn lemma_guards_any(receivers: Seq<RxInfo>)
    ensures
        guards(receivers) > 0 <==> any_borrowing(receivers),
    decreases receivers.len(),
{
    if receivers.len() > 0 {
        let front = receivers.drop_last();
        lemma_guards_any(front);
        if any_borrowing(front) {
            let i = choose|i: int| 0 <= i < front.len() && (#[trigger] front[i]).borrowing;
            assert(receivers[i].borrowing);
        }
        if receivers.last().borrowing {
            assert(receivers[receivers.len() - 1].borrowing);
        }
        if any_borrowing(receivers) {
            let i = choose|i: int| 0 <= i < receivers.len() && (#[trigger] receivers[i]).borrowing;
            if i < front.len() {
                assert(front[i].borrowing);
            }
        }
    }
}

/// A commit of the game is a commit of the channel.
proof fn lemma_commit_agrees(game: WatchGame, channel: Cell, ids: Seq<u64>, ch: char)
    requires
        agrees(game, channel, ids),
        game.pending_send is None,
        game.version < u64::MAX,
        game.value != Some(ch),
    ensures
        agrees(game.commit(ch).0, channel.commit(Some(ch)), ids),
{
    let after = game.commit(ch).0;
    let moved = channel.commit(Some(ch));
    lemma_guards_same(game.receivers, after.receivers);
    lemma_same_alive_same_count(channel.receivers, moved.receivers);
    assert(queued_values(moved.queue).len() == 0);
    assert forall|i: int| 0 <= i < ids.len() implies 1 <= #[trigger] ids[i]
        <= moved.receivers.len() && same_receiver(
        after.receivers[i],
        moved.receivers[ids[i] - 1],
    ) by {
        assert(same_receiver(game.receivers[i], channel.receivers[ids[i] - 1]));
    }
}

/// A released guard lets both resolve alike.
proof fn lemma_release_agrees(game: WatchGame, channel: Cell, ids: Seq<u64>)
    requires
        channel.readers > 0,
        agrees(game, WatchState { readers: (channel.readers - 1) as nat, ..channel }, ids),
        game.version < u64::MAX,
        game.pending_send is Some ==> game.value != game.pending_send,
    ensures
        agrees(game.resolve_pending().0, released(channel), ids),
{
    let left = WatchState { readers: (channel.readers - 1) as nat, ..channel };
    lemma_guards_any(game.receivers);
    match game.pending_send {
        Some(ch) if left.readers == 0 => {
            let clear = WatchGame { pending_send: None, ..game };
            assert(left.settle_first(1) == left.settle_first(0).settle(0));
            assert(left.settle_first(0) == left);
            assert(left.queue.drop_last() =~= Seq::empty());
            assert(queued_values(left.queue.drop_last()).len() == 0);
            let empty = WatchState { queue: Seq::empty(), ..left };
            assert(agrees(clear, empty, ids)) by {
                assert(queued_values(empty.queue).len() == 0);
            }
            if game.receivers.len() == 0 {
                assert(released(channel).queue =~= Seq::empty());
                assert(released(channel) == empty);
            } else {
                lemma_commit_agrees(clear, empty, ids, ch);
                assert(released(channel).queue =~= Seq::empty());
                assert(released(channel) == empty.commit(Some(ch)));
            }
        },
        Some(_) => {},
        None => {
            assert(left.settle_first(0) == left);
        },
    }
}

/// A receiver of the game changed as its receiver of the channel did.
proof fn lemma_update_agrees(
    game: WatchGame,
    channel: Cell,
    ids: Seq<u64>,
    i: int,
    info: RxInfo,
    rx: Rx,
)
    requires
        agrees(game, channel, ids),
        0 <= i < ids.len(),
        info.borrowing == game.receivers[i].borrowing,
        same_receiver(info, rx),
        rx.version <= channel.version,
        rx.awaiting ==> rx.waiter is Some && rx.version == channel.version,
    ensures
        agrees(
            WatchGame { receivers: game.receivers.update(i, info), ..game },
            channel.with_rx(ids[i], rx),
            ids,
        ),
{
    let moved = channel.with_rx(ids[i], rx);
    lemma_guards_update(game.receivers, i, info);
    lemma_count_update(channel.receivers, ids[i] - 1, rx);
    assert forall|k: int| 0 <= k < ids.len() implies 1 <= #[trigger] ids[k]
        <= moved.receivers.len() && same_receiver(
        game.receivers.update(i, info)[k],
        moved.receivers[ids[k] - 1],
    ) by {
        if k != i {
            assert(ids[k] != ids[i]);
            assert(same_receiver(game.receivers[k], channel.receivers[ids[k] - 1]));
        }
    }
}

/// A new receiver of the game is a new receiver of the channel.
proof fn lemma_added_agrees(
    game: WatchGame,
    channel: Cell,
    ids: Seq<u64>,
    owner: u64,
    version: u64,
)
    requires
        agrees(game, channel, ids),
        channel.receivers.len() < usize::MAX,
        version <= channel.version,
    ensures
        agrees(
            game.with_receiver(owner, version).0,
            channel.with_receiver(version),
            ids.push((free_slot(channel.receivers) + 1) as u64),
        ),
{
    let after = game.with_receiver(owner, version).0;
    let moved = channel.with_receiver(version);
    let free = free_slot(channel.receivers);
    let more = ids.push((free + 1) as u64);
    lemma_with_receiver(channel, version);
    assert(after.receivers.drop_last() =~= game.receivers);
    assert forall|k: int| 0 <= k < more.len() implies 1 <= #[trigger] more[k]
        <= moved.receivers.len() && same_receiver(
        after.receivers[k],
        moved.receivers[more[k] - 1],
    ) by {
        if k < ids.len() {
            assert(more[k] == ids[k]);
            assert(same_receiver(game.receivers[k], channel.receivers[ids[k] - 1]));
        }
    }
    assert forall|i: int, j: int|
        #![trigger more[i], more[j]]
        0 <= i < j < more.len() implies more[i] != more[j] by {
        assert(more[i] == ids[i]);
        assert(same_receiver(game.receivers[i], channel.receivers[ids[i] - 1]));
        if j < ids.len() {
            assert(more[j] == ids[j]);
        }
    }
}

/// A receiver that left the game left the channel, its guard still to be
/// returned.
proof fn lemma_dropped_agrees(game: WatchGame, channel: Cell, ids: Seq<u64>, i: int)
    requires
        agrees(game, channel, ids),
        0 <= i < ids.len(),
    ensures
        ({
            let gone = dropped(channel, ids[i]);
            agrees(
                WatchGame { receivers: game.receivers.remove(i), ..game },
                WatchState {
                    readers: if game.receivers[i].borrowing {
                        (gone.readers - 1) as nat
                    } else {
                        gone.readers
                    },
                    ..gone
                },
                ids.remove(i),
            )
        }),
{
    let rx = channel.receivers[ids[i] - 1];
    let dead = Rx { alive: false, awaiting: false, waiter: None, ..rx };
    let left = game.receivers.remove(i);
    let fewer = ids.remove(i);
    let slots = channel.receivers.update(ids[i] - 1, dead);
    assert(same_receiver(game.receivers[i], rx));
    lemma_guards_remove(game.receivers, i);
    lemma_count_update(channel.receivers, ids[i] - 1, dead);
    assert forall|k: int| 0 <= k < fewer.len() implies 1 <= #[trigger] fewer[k] <= slots.len()
        && same_receiver(left[k], slots[fewer[k] - 1]) by {
        let from = if k < i {
            k
        } else {
            k + 1
        };
        assert(fewer[k] == ids[from]);
        assert(ids[from] != ids[i]);
        assert(same_receiver(game.receivers[from], channel.receivers[ids[from] - 1]));
    }
    assert forall|a: int, b: int|
        #![trigger fewer[a], fewer[b]]
        0 <= a < b < fewer.len() implies fewer[a] != fewer[b] by {
        let p = if a < i {
            a
        } else {
            a + 1
        };
        let q = if b < i {
            b
        } else {
            b + 1
        };
        assert(fewer[a] == ids[p] && fewer[b] == ids[q]);
    }
}

/// The channel that the presenter creates agrees with the game.
pub proof fn law_created_game_agrees_with_its_channel(
    game: WatchGame,
    init: Option<char>,
    conn: u64,
)
    requires
        game.wf(),
        !game.created,
        game.presenter == Some(conn),
    ensures
        agrees(
            game.step(WatchWire::Create { init }, conn).0,
            opened(init),
            Seq::empty(),
        ),
{
    assert(queued_values(opened(init).queue).len() == 0);
    assert(opened(init).receivers.drop_last() =~= Seq::empty());
    assert(live_count(opened(init).receivers.drop_last()) == 0);
    assert(game.receivers =~= Seq::empty());
}

/// The game agrees with a channel that goes through the same operations. The
/// one exception is a pending send of the value that is already there: the
/// game drops it, a channel would count it as a change.
pub proof fn law_game_agrees_with_the_channel(
    game: WatchGame,
    channel: Cell,
    ids: Seq<u64>,
    wire: WatchWire,
    conn: u64,
)
    requires
        game.wf(),
        game.created,
        game.has_room(),
        agrees(game, channel, ids),
        channel.issued < u64::MAX,
        channel.receivers.len() < usize::MAX,
        game.pending_send is Some ==> game.value != game.pending_send,
    ensures
        ({
            let (moved, moved_ids) = channel_step(game, channel, ids, wire, conn);
            agrees(game.step(wire, conn).0, moved, moved_ids)
        }),
{
    lemma_guards_any(game.receivers);
    match wire {
        WatchWire::Send { ch } if game.presenter == Some(conn) => {
            if game.pending_send is None && game.receivers.len() > 0 {
                if any_borrowing(game.receivers) {
                    let parked = channel.park(PendingKind::Send, Some(ch));
                    assert(parked.queue.drop_last() =~= channel.queue);
                    assert(queued_values(channel.queue).len() == 0);
                    assert(queued_values(parked.queue).len() == 1);
                } else if game.value != Some(ch) {
                    lemma_commit_agrees(game, channel, ids, ch);
                }
            }
        },
        WatchWire::NewReceiver => {
            lemma_added_agrees(game, channel, ids, conn, game.version);
        },
        WatchWire::CloneReceiver { rx } if index_of(game.receivers, rx) < game.receivers.len() => {
            lemma_index_of(game.receivers, rx);
            let i = index_of(game.receivers, rx);
            assert(same_receiver(game.receivers[i], channel.receivers[ids[i] - 1]));
            lemma_added_agrees(game, channel, ids, conn, game.receivers[i].version);
        },
        WatchWire::AwaitChange { rx } if game.operable(rx, conn) => {
            lemma_index_of(game.receivers, rx);
            let i = index_of(game.receivers, rx);
            let info = game.receivers[i];
            let slot = channel.receivers[ids[i] - 1];
            assert(same_receiver(info, slot));
            if info.awaiting {
                lemma_update_agrees(
                    game,
                    channel,
                    ids,
                    i,
                    RxInfo { awaiting: false, ..info },
                    Rx { awaiting: false, waiter: None, ..slot },
                );
            } else if info.version < game.version {
                lemma_update_agrees(
                    game,
                    channel,
                    ids,
                    i,
                    RxInfo { version: game.version, ..info },
                    Rx { version: game.version, awaiting: false, waiter: None, alive: true },
                );
            } else {
                let waiter = WaiterId((channel.issued + 1) as u64);
                lemma_update_agrees(
                    game,
                    channel,
                    ids,
                    i,
                    RxInfo { awaiting: true, ..info },
                    Rx { awaiting: true, waiter: Some(waiter), ..slot },
                );
            }
        },
        WatchWire::LookInside { rx } if game.operable(rx, conn) => {
            lemma_index_of(game.receivers, rx);
            let i = index_of(game.receivers, rx);
            let info = game.receivers[i];
            let turned = RxInfo { borrowing: !info.borrowing, ..info };
            lemma_guards_update(game.receivers, i, turned);
            if info.borrowing {
                lemma_release_agrees(game.with_rx(rx, turned), channel, ids);
            }
        },
        WatchWire::DropReceiver { rx } if game.operable(rx, conn) => {
            lemma_index_of(game.receivers, rx);
            let i = index_of(game.receivers, rx);
            lemma_dropped_agrees(game, channel, ids, i);
            if game.receivers[i].borrowing {
                let left = WatchGame { receivers: game.receivers.remove(i), ..game };
                lemma_guards_remove(game.receivers, i);
                lemma_release_agrees(left, dropped(channel, ids[i]), ids.remove(i));
            }
        },
        _ => {},
    }
}

} // verus!

use more_actors::channels::watch::{
    BorrowRelease, ChangePoll, RecvError, ReplaceOffer, ReplacePoll, SendError, SendOffer,
    SendPoll, WatchCore,
};
use more_actors::channels::{Round, WaiterId};

fn waiter_of<T>(offer: SendOffer<T>) -> WaiterId {
    if let SendOffer::Blocked { waiter } = offer {
        waiter
    } else {
        panic!("expected Blocked");
    }
}

fn fresh() -> (WatchCore<char>, u64) {
    let mut core = WatchCore::new('a');
    let rx = core.subscribe();
    (core, rx)
}

#[test]
fn starts_at_the_initial_value_with_one_receiver() {
    let (mut core, rx) = fresh();
    assert_eq!(*core.value(), 'a');
    assert_eq!(core.version(), 0);
    assert_eq!(core.receiver_count(), 2, "the channel receiver plus ours");
    assert!(!core.has_changed(rx));
    assert!(matches!(core.poll_changed(rx), ChangePoll::Blocked { .. }));
}

#[test]
fn send_commits_bumps_version_and_marks_changed() {
    let (mut core, rx) = fresh();
    assert_eq!(core.send('b'), SendOffer::Sent);
    assert_eq!(*core.value(), 'b');
    assert_eq!(core.version(), 1);
    assert!(core.has_changed(rx));
    assert_eq!(core.poll_changed(rx), ChangePoll::Immediate);
    assert!(!core.has_changed(rx));
}

#[test]
fn send_without_receivers_is_rejected() {
    let (mut core, rx) = fresh();
    core.drop_receiver(rx);
    core.drop_receiver(1);
    assert_eq!(core.receiver_count(), 0);
    assert_eq!(core.send('b'), SendOffer::Rejected('b'));
    assert_eq!(*core.value(), 'a', "nothing committed");
    // send_replace never fails, even alone
    assert_eq!(core.send_replace('c'), ReplaceOffer::Replaced('a'));
    assert_eq!(*core.value(), 'c');
}

#[test]
fn changed_wakes_on_the_next_send() {
    let (mut core, rx) = fresh();
    let waiter = match core.poll_changed(rx) {
        ChangePoll::Blocked { waiter } => waiter,
        other => panic!("expected Blocked, got {other:?}"),
    };
    assert!(core.is_awaiting(rx));
    assert_eq!(core.send('b'), SendOffer::Sent);
    assert!(!core.is_awaiting(rx), "the send caught the receiver up");
    assert_eq!(core.poll_changed_wait(rx, waiter), ChangePoll::Immediate);
}

#[test]
fn stale_changed_resolves_immediately() {
    let (mut core, rx) = fresh();
    assert_eq!(core.send('b'), SendOffer::Sent);
    assert_eq!(core.poll_changed(rx), ChangePoll::Immediate);
}

#[test]
fn watch_changed_can_be_cancelled() {
    let (mut core, rx) = fresh();
    assert!(matches!(core.poll_changed(rx), ChangePoll::Blocked { .. }));
    core.cancel_changed(rx);
    assert!(!core.is_awaiting(rx));
}

#[test]
fn borrow_blocks_send_until_the_last_guard_drops() {
    let (mut core, _rx) = fresh();
    core.begin_borrow();
    core.begin_borrow();
    let waiter = waiter_of(core.send('b'));
    assert_eq!(core.pending_waiters(), vec![waiter]);
    assert_eq!(*core.value(), 'a', "not committed while borrowed");

    // releasing one guard keeps the send parked
    assert_eq!(core.end_borrow(), BorrowRelease::Released);
    assert_eq!(*core.value(), 'a');

    assert_eq!(core.end_borrow(), BorrowRelease::Resolved);
    assert_eq!(*core.value(), 'b');
    assert_eq!(core.version(), 1);
}

#[test]
fn parked_sends_commit_in_fifo_order() {
    let (mut core, _rx) = fresh();
    core.begin_borrow();
    let first = waiter_of(core.send('x'));
    let second = waiter_of(core.send('y'));
    assert_eq!(core.pending_waiters(), vec![first, second]);

    core.end_borrow();
    assert_eq!(*core.value(), 'y', "both committed in order");
    assert_eq!(core.version(), 2);
    assert_eq!(core.poll_send(first), SendPoll::Sent);
    assert_eq!(core.poll_send(second), SendPoll::Sent);
    assert_eq!(core.pending_waiters(), Vec::<WaiterId>::new());
}

#[test]
fn releasing_the_last_guard_refuses_when_receivers_vanished() {
    let (mut core, rx) = fresh();
    core.begin_borrow();
    let waiter = waiter_of(core.send('b'));
    core.drop_receiver(rx);
    core.drop_receiver(1);
    assert_eq!(core.end_borrow(), BorrowRelease::Refused);
    assert_eq!(core.poll_send(waiter), SendPoll::Failed('b'));
    assert_eq!(*core.value(), 'a', "nothing committed");
}

#[test]
fn watch_cancel_send_hands_the_parked_value_back() {
    let (mut core, _rx) = fresh();
    core.begin_borrow();
    let waiter = waiter_of(core.send('b'));
    assert_eq!(core.cancel_send(waiter), Some('b'));
    assert_eq!(core.poll_send(waiter), SendPoll::Cancelled);
    assert_eq!(core.cancel_send(waiter), None);
}

#[test]
fn try_modify_dedups_and_bumps() {
    let (mut core, rx) = fresh();
    let dedup = core.try_modify(|value| {
        let changed = *value != 'a';
        if changed {
            *value = 'a';
        }
        changed
    });
    assert!(matches!(dedup, Ok(false)), "equal value does not change");
    assert_eq!(core.version(), 0);
    assert!(!core.has_changed(rx));

    let modified = core.try_modify(|value| {
        *value = 'b';
        true
    });
    assert!(matches!(modified, Ok(true)));
    assert_eq!(core.version(), 1);
    assert!(core.has_changed(rx));
}

#[test]
fn try_modify_hands_the_closure_back_while_borrowed() {
    let (mut core, _rx) = fresh();
    core.begin_borrow();
    let blocked = core.try_modify(|value: &mut char| {
        *value = 'b';
        true
    });
    assert!(blocked.is_err(), "blocked by the borrow guard");
    core.end_borrow();
    let applied = core.try_modify(|value| {
        *value = 'b';
        true
    });
    assert!(matches!(applied, Ok(true)));
}

#[test]
fn send_replace_queues_and_returns_the_old_value() {
    let (mut core, _rx) = fresh();
    core.begin_borrow();
    let waiter = match core.send_replace('b') {
        ReplaceOffer::Queued { waiter } => waiter,
        other => panic!("expected Queued, got {other:?}"),
    };
    assert_eq!(core.poll_replace(waiter), ReplacePoll::Pending);
    core.end_borrow();
    assert_eq!(core.poll_replace(waiter), ReplacePoll::Replaced('a'));
    assert_eq!(*core.value(), 'b');
    assert_eq!(core.version(), 1);
}

#[test]
fn clone_inherits_the_seen_version_but_not_awaiting() {
    let (mut core, rx) = fresh();
    assert!(matches!(core.poll_changed(rx), ChangePoll::Blocked { .. }));
    let clone = core.clone_receiver(rx).expect("clone live receiver");
    assert_eq!(core.receiver_version(clone), core.receiver_version(rx));
    assert!(!core.is_awaiting(clone), "clones start fresh");

    // a send wakes the source; the clone has not caught up until it
    // calls changed() itself
    assert_eq!(core.send('b'), SendOffer::Sent);
    assert!(!core.is_awaiting(rx));
    assert!(core.has_changed(clone));
    assert_eq!(core.poll_changed(clone), ChangePoll::Immediate);
}

#[test]
fn sender_gone_closes_changed() {
    let (mut core, rx) = fresh();
    core.drop_sender();
    assert_eq!(core.poll_changed(rx), ChangePoll::Closed);

    // a stale receiver catches up first, then sees the close
    assert_eq!(core.send('b'), SendOffer::Sent);
    core.drop_sender();
    assert_eq!(core.poll_changed(rx), ChangePoll::Immediate);
    assert_eq!(core.poll_changed(rx), ChangePoll::Closed);
}

#[test]
fn mark_changed_bumps_without_modifying() {
    let (mut core, rx) = fresh();
    core.mark_changed();
    assert_eq!(core.version(), 1);
    assert_eq!(*core.value(), 'a');
    assert!(core.has_changed(rx));
}

#[test]
fn receiver_ids_lists_live_receivers_ascending() {
    let mut core = WatchCore::new('a');
    let second = core.subscribe();
    let third = core.subscribe();
    assert_eq!(core.receiver_ids(), [1, second, third]);

    core.drop_receiver(second);
    assert_eq!(core.receiver_ids(), [1, third]);
}

#[test]
fn pending_values_lists_parked_sends_in_commit_order() {
    let mut core = WatchCore::new('a');
    core.begin_borrow();
    let SendOffer::Blocked { .. } = core.send('x') else {
        panic!("a borrow guard parks the send");
    };
    let SendOffer::Blocked { .. } = core.send('y') else {
        panic!("a borrow guard parks the send");
    };
    assert_eq!(core.pending_values(), [&'x', &'y']);
}

#[test]
fn send_fails_when_receivers_are_gone() {
    let mut core = WatchCore::new('a');
    core.drop_receiver(1);
    assert_eq!(core.receiver_count(), 0);
    assert_eq!(
        core.send_round('b'),
        Round::Done { result: Err(SendError('b')), bell: false }
    );
}

#[test]
fn send_if_modified_dedups_equal_values() {
    let mut core = WatchCore::new('a');
    let same = core.try_modify(|value: &mut char| {
        let changed = *value != 'a';
        if changed {
            *value = 'z';
        }
        changed
    });
    assert!(matches!(same, Ok(false)));
    assert!(!core.has_changed(1));
    let other = core.try_modify(|value: &mut char| {
        *value = 'b';
        true
    });
    assert!(matches!(other, Ok(true)));
    assert!(core.has_changed(1));
}

#[test]
fn clones_start_seen_and_advance_alone() {
    let mut core = WatchCore::new('a');
    let rx2 = core.clone_receiver(1).expect("cloning a live receiver");
    assert!(!core.has_changed(rx2), "the clone has seen the current value");
    assert_eq!(core.send('b'), SendOffer::Sent);
    assert!(core.has_changed(1));
    assert!(core.has_changed(rx2));
    core.begin_borrow();
    core.mark_seen(rx2);
    core.end_borrow();
    assert!(!core.has_changed(rx2));
    assert!(core.has_changed(1), "cursors advance independently");
}

#[test]
fn send_modify_never_fails_without_receivers() {
    let mut core = WatchCore::new('a');
    core.drop_receiver(1);
    let modified = core.try_modify(|value: &mut char| {
        *value = 'b';
        true
    });
    assert!(matches!(modified, Ok(true)));
    core.subscribe();
    assert_eq!(*core.value(), 'b');
}

#[test]
fn blocking_rounds_wait_behind_a_guard() {
    let mut core = WatchCore::new('a');
    core.begin_borrow();
    let sent = match core.send_round('b') {
        Round::Park { waiter } => waiter,
        other => panic!("expected Park, got {other:?}"),
    };
    let replaced = match core.replace_round('c') {
        Round::Park { waiter } => waiter,
        other => panic!("expected Park, got {other:?}"),
    };
    assert_eq!(core.resend_round(sent), Round::Park { waiter: sent });
    assert_eq!(core.end_borrow(), BorrowRelease::Resolved);
    assert_eq!(core.resend_round(sent), Round::Done { result: Ok(()), bell: true });
    assert_eq!(core.rereplace_round(replaced), Round::Done { result: 'b', bell: true });
    assert_eq!(core.replace_round('d'), Round::Done { result: 'c', bell: true });
    assert_eq!(core.changed_round(1, None), Round::Done { result: Ok(()), bell: false });
    let waiter = match core.changed_round(1, None) {
        Round::Park { waiter } => waiter,
        other => panic!("expected Park, got {other:?}"),
    };
    assert_eq!(core.changed_round(1, Some(waiter)), Round::Park { waiter });
    core.drop_sender();
    assert!(!core.has_sender());
    assert_eq!(
        core.changed_round(1, Some(waiter)),
        Round::Done { result: Err(RecvError), bell: false }
    );
}

#[test]
fn a_receiver_can_be_marked_unchanged() {
    let (mut core, rx) = fresh();
    core.send('b');
    assert!(core.has_changed(rx));
    core.mark_unchanged(rx);
    assert!(!core.has_changed(rx));
    assert_eq!(core.receiver_version(rx), Some(1));
    core.mark_unchanged(99);
    assert_eq!(core.receiver_version(99), None);
}

#[test]
fn a_settled_send_stands_in_nobodys_way() {
    let mut core = WatchCore::new('a');
    core.begin_borrow();
    let waiter = waiter_of(core.send('b'));
    assert_eq!(core.end_borrow(), BorrowRelease::Resolved);
    // the parked sender has not looked yet
    assert_eq!(core.send('c'), SendOffer::Sent);
    assert_eq!(*core.value(), 'c');
    assert_eq!(core.version(), 2);
    assert_eq!(core.send_replace('d'), ReplaceOffer::Replaced('c'));
    core.begin_borrow();
    assert_eq!(core.end_borrow(), BorrowRelease::Released);
    assert_eq!(core.poll_send(waiter), SendPoll::Sent);
}

#[test]
fn an_old_refusal_is_not_reported_again() {
    let mut core = WatchCore::new('a');
    core.begin_borrow();
    let waiter = waiter_of(core.send('b'));
    core.drop_receiver(1);
    assert_eq!(core.end_borrow(), BorrowRelease::Refused);
    let rx = core.subscribe();
    core.begin_borrow();
    let later = waiter_of(core.send('c'));
    assert_eq!(core.end_borrow(), BorrowRelease::Resolved);
    assert!(core.has_changed(rx));
    core.begin_borrow();
    assert_eq!(core.end_borrow(), BorrowRelease::Released);
    assert_eq!(core.poll_send(waiter), SendPoll::Failed('b'));
    assert_eq!(core.poll_send(later), SendPoll::Sent);
}

#[test]
fn a_send_that_went_through_can_be_polled_as_a_replace() {
    let mut core = WatchCore::new('a');
    core.begin_borrow();
    let waiter = waiter_of(core.send('b'));
    assert_eq!(core.poll_replace(waiter), ReplacePoll::Pending);
    core.end_borrow();
    assert_eq!(core.poll_replace(waiter), ReplacePoll::Replaced('a'));
    assert_eq!(core.poll_replace(waiter), ReplacePoll::Cancelled);
}

#[test]
fn ids_are_those_of_the_receivers_and_the_least_free_comes_next() {
    let mut core = WatchCore::new('a');
    assert_eq!(core.receiver_ids(), [1]);
    assert_eq!([core.subscribe(), core.subscribe()], [2, 3]);
    assert_eq!(core.receiver_ids(), [1, 2, 3]);
    core.drop_receiver(1);
    core.drop_receiver(2);
    assert_eq!(core.receiver_ids(), [3]);
    assert_eq!(core.receiver_count(), 1);
    assert_eq!(core.clone_receiver(3), Some(1));
    assert_eq!(core.subscribe(), 2);
    assert_eq!(core.receiver_ids(), [1, 2, 3]);
}

#[test]
fn the_version_never_goes_back_and_nobody_is_ahead_of_it() {
    let mut core = WatchCore::new('a');
    let rx = core.subscribe();
    let mut version = 0;
    for round in 0..6 {
        match round {
            0 => assert_eq!(core.send('b'), SendOffer::Sent),
            1 => core.mark_changed(),
            2 => {
                core.begin_borrow();
                waiter_of(core.send('c'));
            }
            3 => assert_eq!(core.poll_changed(rx), ChangePoll::Immediate),
            4 => assert!(matches!(core.poll_changed(rx), ChangePoll::Blocked { .. })),
            _ => assert_eq!(core.end_borrow(), BorrowRelease::Resolved),
        }
        assert!(core.version() >= version);
        version = core.version();
        let seen = core.receiver_version(rx).expect("a live receiver");
        assert!(seen <= version);
        assert_eq!(core.has_changed(rx), seen < version);
        assert!(!core.is_awaiting(rx) || seen == version);
    }
    assert_eq!(version, 3);
    core.drop_receiver(rx);
    assert_eq!(core.receiver_version(rx), None);
    assert!(!core.has_changed(rx) && !core.is_awaiting(rx));
}

use more_actors::channels::broadcast::{
    BroadcastCore, BroadcastPoll, RecvError, SendError, TryRecvError,
};
use more_actors::channels::Round;

#[test]
fn every_receiver_sees_every_value() {
    let mut core = BroadcastCore::new(8);
    let a = core.subscribe();
    let b = core.subscribe();
    assert_eq!(core.send('x'), Ok(2));

    assert_eq!(core.poll_recv(a), BroadcastPoll::Value('x'));
    assert_eq!(core.try_recv(b), Ok('x'));
    assert_eq!(core.receiver_seq(a), Some(core.next_seq()));
    assert_eq!(core.try_recv(b), Err(TryRecvError::Empty));
}

#[test]
fn subscribers_start_at_the_tail_not_in_history() {
    let mut core = BroadcastCore::new(8);
    assert_eq!(core.send('a'), Err(SendError('a')), "nobody is listening");
    assert_eq!(core.send('b'), Err(SendError('b')));
    assert_eq!(core.next_seq(), 0, "failed sends publish nothing");

    let late = core.subscribe();
    assert_eq!(core.receiver_seq(late), Some(0), "starts at the tail");
    assert_eq!(core.send('c'), Ok(1));
    assert_eq!(core.try_recv(late), Ok('c'));

    // adding a sender back reopens the channel
    assert_eq!(core.sender_count(), 1);
    core.drop_sender();
    assert!(core.is_closed());
    core.add_sender();
    assert!(!core.is_closed());
}

#[test]
fn clone_continues_from_the_source_position() {
    let mut core = BroadcastCore::new(8);
    let a = core.subscribe();
    assert_eq!(core.send('1'), Ok(1));
    let b = core.clone_receiver(a).expect("clone live receiver");
    assert_eq!(
        core.receiver_seq(b),
        core.receiver_seq(a),
        "clone copies the source's cursor"
    );

    assert_eq!(core.try_recv(a), Ok('1'));
    assert_eq!(core.try_recv(b), Ok('1'), "both cursors advance alone");
    assert_eq!(core.try_recv(a), Err(TryRecvError::Empty));
    assert_eq!(core.try_recv(b), Err(TryRecvError::Empty));
}

#[test]
fn falling_behind_lags_then_resumes_at_oldest() {
    let mut core = BroadcastCore::new(2);
    let rx = core.subscribe();
    for ch in 'a'..='d' {
        core.send(ch).expect("receiver alive");
    }
    assert_eq!(core.len(), 2, "only the newest two are retained");
    assert_eq!(core.receiver_seq(rx), Some(0));

    assert_eq!(core.try_recv(rx), Err(TryRecvError::Lagged(2)));
    assert_eq!(core.receiver_seq(rx), Some(2), "cursor skipped to oldest");
    assert_eq!(core.try_recv(rx), Ok('c'));
    assert_eq!(core.try_recv(rx), Ok('d'));
    assert_eq!(core.try_recv(rx), Err(TryRecvError::Empty));

    // the poll path reports lag the same way
    let rx2 = core.subscribe();
    for ch in 'e'..='g' {
        core.send(ch).expect("receiver alive");
    }
    assert_eq!(core.poll_recv(rx2), BroadcastPoll::Lagged { skipped: 1 });
    assert_eq!(core.poll_recv(rx2), BroadcastPoll::Value('f'));
    assert_eq!(core.poll_recv(rx2), BroadcastPoll::Value('g'));
}

#[test]
fn caught_up_receiver_waits_and_then_wakes() {
    let mut core = BroadcastCore::new(4);
    let rx = core.subscribe();
    let waiter = match core.poll_recv(rx) {
        BroadcastPoll::Empty { waiter } => waiter,
        other => panic!("expected Empty, got {other:?}"),
    };
    assert_eq!(
        core.poll_recv_wait(rx, waiter),
        BroadcastPoll::Empty { waiter },
        "recheck keeps the waiter"
    );
    core.send('a').expect("receiver alive");
    assert_eq!(core.poll_recv_wait(rx, waiter), BroadcastPoll::Value('a'));
}

#[test]
fn closed_once_caught_up_and_senders_gone() {
    let mut core = BroadcastCore::new(4);
    let rx = core.subscribe();
    core.send('a').expect("receiver alive");
    core.drop_sender();
    assert!(core.is_closed());

    assert_eq!(core.try_recv(rx), Ok('a'), "retained values stay readable");
    assert_eq!(core.try_recv(rx), Err(TryRecvError::Closed));
    assert_eq!(core.poll_recv(rx), BroadcastPoll::Closed);
}

#[test]
fn dropped_receiver_slot_is_reused() {
    let mut core = BroadcastCore::new(4);
    let rx = core.subscribe();
    core.drop_receiver(rx);
    assert_eq!(core.receiver_count(), 0);
    assert_eq!(core.send('a'), Err(SendError('a')));
    assert_eq!(core.receiver_seq(rx), None);

    let fresh = core.subscribe();
    assert_eq!(fresh, rx, "dead slots are recycled");
    assert_eq!(core.receiver_count(), 1);
}

#[test]
fn send_fails_once_receivers_are_gone() {
    let mut core = BroadcastCore::<char>::new(4);
    let rx = core.subscribe();
    assert_eq!(core.receiver_count(), 1);
    core.drop_receiver(rx);
    assert_eq!(core.receiver_count(), 0);
    assert_eq!(core.send('a'), Err(SendError('a')));
}

#[test]
fn clones_share_and_advance_their_own_cursors() {
    let mut core = BroadcastCore::<char>::new(4);
    let rx1 = core.subscribe();
    let rx2 = core.clone_receiver(rx1).expect("cloning a live receiver");
    core.send('a').expect("receivers alive");
    assert_eq!(core.try_recv(rx1), Ok('a'));
    assert_eq!(core.try_recv(rx2), Ok('a'));
    assert_eq!(core.try_recv(rx1), Err(TryRecvError::Empty));
    assert_eq!(core.try_recv(rx2), Err(TryRecvError::Empty));
}

#[test]
fn a_blocking_receive_parks_under_one_id() {
    let mut core = BroadcastCore::<char>::new(2);
    let rx = core.subscribe();
    let waiter = match core.recv_round(rx, None) {
        Round::Park { waiter } => waiter,
        other => panic!("expected Park, got {other:?}"),
    };
    assert_eq!(core.receiver_waiting(rx), Some(waiter));
    assert_eq!(core.recv_round(rx, Some(waiter)), Round::Park { waiter });
    for ch in 'a'..='c' {
        core.send(ch).expect("receiver alive");
    }
    assert_eq!(
        core.recv_round(rx, Some(waiter)),
        Round::Done { result: Err(RecvError::Lagged(1)), bell: false }
    );
    assert_eq!(core.recv_round(rx, None), Round::Done { result: Ok('b'), bell: false });
    assert_eq!(core.recv_round(rx, None), Round::Done { result: Ok('c'), bell: false });
    core.drop_sender();
    assert_eq!(
        core.recv_round(rx, None),
        Round::Done { result: Err(RecvError::Closed), bell: false }
    );
}

#[test]
fn the_ring_keeps_the_newest_values_under_their_numbers() {
    let mut core = BroadcastCore::<char>::new(2);
    let _rx = core.subscribe();
    for ch in 'a'..='c' {
        core.send(ch).expect("receiver alive");
    }
    assert_eq!(core.ring(), vec![(1, 'b'), (2, 'c')]);
    assert_eq!(core.next_seq(), 3);
    assert_eq!(core.capacity(), 2);
    assert!(!core.is_empty());
}

#[test]
fn a_cursor_counts_what_was_seen_or_missed() {
    let mut core = BroadcastCore::<char>::new(2);
    let rx = core.subscribe();
    let other = core.subscribe();
    let (mut seen, mut missed) = (0, 0);
    for ch in 'a'..='e' {
        core.send(ch).expect("receivers alive");
    }
    for _ in 0..2 {
        match core.poll_recv(rx) {
            BroadcastPoll::Value(value) => {
                assert_eq!(value, 'd', "the oldest retained value comes next");
                seen += 1;
            }
            BroadcastPoll::Lagged { skipped } => missed += skipped,
            poll => panic!("unexpected {poll:?}"),
        }
    }
    assert_eq!((seen, missed), (1, 3));
    assert_eq!(core.receiver_seq(rx), Some(4));
    assert_eq!(core.receiver_seq(other), Some(0));
    assert_eq!(core.next_seq(), 5);
    assert_eq!(core.len(), 2);
    core.drop_receiver(rx);
    core.drop_receiver(other);
    assert_eq!(core.send('f'), Err(SendError('f')));
    assert_eq!(core.next_seq(), 5, "only sends that reach somebody count");
}

#[test]
fn polling_and_trying_agree() {
    let mut core = BroadcastCore::<char>::new(2);
    let polled = core.subscribe();
    let tried = core.subscribe();
    let waiter = match core.poll_recv(polled) {
        BroadcastPoll::Empty { waiter } => waiter,
        poll => panic!("unexpected {poll:?}"),
    };
    assert_eq!(core.poll_recv(polled), BroadcastPoll::Empty { waiter });
    assert_eq!(core.try_recv(tried), Err(TryRecvError::Empty));
    for ch in 'a'..='c' {
        core.send(ch).expect("receivers alive");
    }
    assert_eq!(core.poll_recv(polled), BroadcastPoll::Lagged { skipped: 1 });
    assert_eq!(core.try_recv(tried), Err(TryRecvError::Lagged(1)));
    assert_eq!(core.receiver_seq(polled), core.receiver_seq(tried));
    for ch in ['b', 'c'] {
        assert_eq!(core.poll_recv(polled), BroadcastPoll::Value(ch));
        assert_eq!(core.try_recv(tried), Ok(ch));
        assert_eq!(core.receiver_seq(polled), core.receiver_seq(tried));
    }
    core.drop_sender();
    assert_eq!(core.poll_recv(polled), BroadcastPoll::Closed);
    assert_eq!(core.try_recv(tried), Err(TryRecvError::Closed));
}

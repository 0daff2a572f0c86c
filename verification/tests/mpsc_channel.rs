use more_actors::channels::mpsc::{
    MpscCore, RecvError, RecvPoll, SendError, SendOffer, SendPoll, TryRecvError, TrySendError,
};
use more_actors::channels::{Round, WaiterId};

const CAP: usize = 3;

fn fresh() -> MpscCore<char> {
    MpscCore::new(CAP)
}

#[test]
fn sends_land_in_the_buffer_until_it_is_full() {
    let mut core = fresh();
    for ch in 'a'..'d' {
        assert_eq!(core.offer_send(ch), SendOffer::Accepted);
    }
    assert_eq!(core.len(), CAP);
    assert!(
        matches!(core.offer_send('d'), SendOffer::Blocked { .. }),
        "a full buffer parks the send, it does not reject it"
    );
}

#[test]
fn full_buffer_parks_sends_fifo_and_wakes_in_order() {
    let mut core = fresh();
    for ch in 'a'..'d' {
        let _ = core.offer_send(ch);
    }
    let first = match core.offer_send('x') {
        SendOffer::Blocked { waiter } => waiter,
        other => panic!("expected Blocked, got {other:?}"),
    };
    let second = match core.offer_send('y') {
        SendOffer::Blocked { waiter } => waiter,
        other => panic!("expected Blocked, got {other:?}"),
    };
    assert_eq!(core.blocked_waiters(), vec![first, second]);
    assert_eq!(core.blocked_len(), 2);
    assert_eq!(core.len(), CAP, "parked values do not enter the buffer");

    // one receive frees one slot; the front of the queue proceeds
    assert_eq!(core.try_recv(), Ok('a'));
    assert_eq!(core.poll_send(first), SendPoll::Accepted);
    assert_eq!(core.poll_send(second), SendPoll::Pending);
    assert_eq!(core.len(), CAP, "the woken value is already buffered");
    assert_eq!(core.blocked_waiters(), vec![second]);

    // the next receive frees the second parked send
    assert_eq!(core.try_recv(), Ok('b'));
    assert_eq!(core.poll_send(second), SendPoll::Accepted);
    assert_eq!(core.blocked_waiters(), Vec::<WaiterId>::new());
}

#[test]
fn waiting_receiver_takes_the_next_value_directly() {
    let mut core = fresh();
    let waiter = match core.poll_recv() {
        RecvPoll::Empty { waiter } => waiter,
        other => panic!("expected Empty, got {other:?}"),
    };
    assert_eq!(core.waiting_receiver(), Some(waiter));

    assert_eq!(core.offer_send('a'), SendOffer::Accepted);
    assert_eq!(core.poll_recv_wait(waiter), RecvPoll::Value('a'));
    assert_eq!(core.waiting_receiver(), None, "waiter cleared on success");
    assert_eq!(core.len(), 0, "waiting receiver bypasses the buffer");
}

#[test]
fn close_fails_parked_sends_and_returns_their_values() {
    let mut core = fresh();
    for ch in 'a'..'d' {
        let _ = core.offer_send(ch);
    }
    let waiter = match core.offer_send('x') {
        SendOffer::Blocked { waiter } => waiter,
        other => panic!("expected Blocked, got {other:?}"),
    };
    core.close();
    assert_eq!(core.poll_send(waiter), SendPoll::Failed('x'));

    // buffered values remain drainable, then disconnected
    assert_eq!(core.try_recv(), Ok('a'));
    assert_eq!(core.try_recv(), Ok('b'));
    assert_eq!(core.try_recv(), Ok('c'));
    assert_eq!(core.try_recv(), Err(TryRecvError::Disconnected));
}

#[test]
fn close_rejects_new_sends_but_drains() {
    let mut core = fresh();
    let _ = core.offer_send('a');
    core.close();
    assert!(core.is_closed());
    assert_eq!(core.offer_send('b'), SendOffer::Rejected('b'));
    assert_eq!(core.try_send('b'), Err(TrySendError::Closed('b')));
    assert_eq!(core.try_recv(), Ok('a'));
    assert_eq!(core.try_recv(), Err(TryRecvError::Disconnected));
}

#[test]
fn dropping_the_receiver_closes_the_channel() {
    let mut core = fresh();
    assert!(core.has_receiver());
    core.drop_receiver();
    assert!(!core.has_receiver());
    assert!(core.is_closed());
    assert_eq!(core.offer_send('a'), SendOffer::Rejected('a'));
}

#[test]
fn last_sender_drop_disconnects_once_drained() {
    let mut core = fresh();
    let _ = core.offer_send('a');
    core.add_sender();
    assert_eq!(core.sender_count(), 2);
    core.drop_sender();
    core.drop_sender();
    assert_eq!(core.sender_count(), 0);
    assert_eq!(core.try_recv(), Ok('a'), "buffer drains after disconnect");
    assert_eq!(core.try_recv(), Err(TryRecvError::Disconnected));
    assert_eq!(core.poll_recv(), RecvPoll::Disconnected);
}

#[test]
fn mpsc_cancel_send_hands_the_parked_value_back() {
    let mut core = fresh();
    for ch in 'a'..'d' {
        let _ = core.offer_send(ch);
    }
    let waiter = match core.offer_send('x') {
        SendOffer::Blocked { waiter } => waiter,
        other => panic!("expected Blocked, got {other:?}"),
    };
    assert_eq!(core.cancel_send(waiter), Some('x'));
    assert_eq!(core.blocked_len(), 0);
    assert_eq!(core.poll_send(waiter), SendPoll::Cancelled);
    assert_eq!(core.cancel_send(waiter), None);
}

#[test]
fn unbounded_channels_never_park() {
    let mut core: MpscCore<char> = MpscCore::new(usize::MAX);
    for ch in 'a'..'f' {
        assert_eq!(core.offer_send(ch), SendOffer::Accepted);
    }
    assert_eq!(core.len(), 5);
    assert_eq!(core.capacity(), usize::MAX);
}

#[test]
fn try_send_reports_full_without_parking() {
    let mut core = MpscCore::new(1);
    assert_eq!(core.try_send('a'), Ok(()));
    assert_eq!(core.try_send('b'), Err(TrySendError::Full('b')));
    assert_eq!(core.blocked_len(), 0);
}

#[test]
fn unbounded_send_never_blocks() {
    let mut core = MpscCore::<char>::new(usize::MAX);
    for ch in 'a'..'e' {
        core.unbounded_send(ch).expect("unbounded");
    }
    assert_eq!(core.len(), 4);
    for ch in 'a'..'e' {
        assert_eq!(core.try_recv(), Ok(ch));
    }
    core.close();
    assert_eq!(core.unbounded_send('z'), Err(SendError('z')));
}

#[test]
fn a_blocking_send_parks_and_completes() {
    let mut core = MpscCore::<char>::new(1);
    assert_eq!(core.send_round('a'), Round::Done { result: Ok(()), bell: true });
    let waiter = match core.send_round('b') {
        Round::Park { waiter } => waiter,
        other => panic!("expected Park, got {other:?}"),
    };
    assert_eq!(core.resend_round(waiter), Round::Park { waiter });
    assert_eq!(core.recv_round(None), Round::Done { result: Ok('a'), bell: true });
    assert_eq!(core.resend_round(waiter), Round::Done { result: Ok(()), bell: true });

    let parked = match core.send_round('c') {
        Round::Park { waiter } => waiter,
        other => panic!("expected Park, got {other:?}"),
    };
    core.close();
    assert_eq!(
        core.resend_round(parked),
        Round::Done { result: Err(SendError('c')), bell: false }
    );
    assert_eq!(core.send_round('d'), Round::Done { result: Err(SendError('d')), bell: false });
}

#[test]
fn a_blocking_receive_waits_under_one_id() {
    let mut core = fresh();
    let waiter = match core.recv_round(None) {
        Round::Park { waiter } => waiter,
        other => panic!("expected Park, got {other:?}"),
    };
    assert_eq!(core.recv_round(Some(waiter)), Round::Park { waiter });
    core.drop_sender();
    assert_eq!(
        core.recv_round(Some(waiter)),
        Round::Done { result: Err(RecvError), bell: false }
    );
}

#[test]
fn a_receive_promotes_past_sends_that_completed_unnoticed() {
    let mut core = MpscCore::<char>::new(1);
    let _ = core.offer_send('a');
    let first = match core.offer_send('b') {
        SendOffer::Blocked { waiter } => waiter,
        other => panic!("expected Blocked, got {other:?}"),
    };
    let second = match core.offer_send('c') {
        SendOffer::Blocked { waiter } => waiter,
        other => panic!("expected Blocked, got {other:?}"),
    };
    // neither parked sender looks in between
    assert_eq!(core.try_recv(), Ok('a'));
    assert_eq!(core.try_recv(), Ok('b'));
    assert_eq!(core.try_recv(), Ok('c'));
    assert_eq!(core.poll_send(first), SendPoll::Accepted);
    assert_eq!(core.poll_send(second), SendPoll::Accepted);
    assert_eq!(core.try_recv(), Err(TryRecvError::Empty));
}

#[test]
fn a_send_that_settled_holds_no_value() {
    let mut core = MpscCore::<char>::new(1);
    assert!(core.is_empty());
    let _ = core.offer_send('a');
    let waiter = match core.offer_send('x') {
        SendOffer::Blocked { waiter } => waiter,
        other => panic!("expected Blocked, got {other:?}"),
    };
    assert!(!core.is_empty());
    assert_eq!(core.try_recv(), Ok('a'));
    assert!(!core.is_empty());
    assert_eq!(core.try_recv(), Ok('x'));
    // the parked sender has not looked yet
    assert!(core.is_empty());
    assert_eq!(core.poll_send(waiter), SendPoll::Accepted);
}

#[test]
fn a_run_receives_exactly_what_was_accepted() {
    let mut core = MpscCore::<char>::new(2);
    let mut parked = Vec::new();
    for ch in ['a', 'b', 'c', 'd', 'e'] {
        if let SendOffer::Blocked { waiter } = core.offer_send(ch) {
            parked.push(waiter);
        }
    }
    assert_eq!(parked.len(), 3);
    assert!(parked[0] < parked[1] && parked[1] < parked[2]);
    let mut received = Vec::new();
    received.push(core.try_recv().expect("a value"));
    assert_eq!(core.cancel_send(parked[1]), Some('d'));
    core.drop_sender();
    received.push(core.try_recv().expect("a value"));
    core.close();
    assert_eq!(core.poll_send(parked[0]), SendPoll::Accepted);
    assert_eq!(core.poll_send(parked[2]), SendPoll::Accepted);
    core.drop_receiver();
    received.push(core.try_recv().expect("a value"));
    received.push(core.try_recv().expect("a value"));
    assert_eq!(received, ['a', 'b', 'c', 'e']);
    assert_eq!(core.try_recv(), Err(TryRecvError::Disconnected));
}

#[test]
fn a_closed_channel_only_drains() {
    let mut core = MpscCore::<char>::new(1);
    let _ = core.offer_send('a');
    let waiter = match core.offer_send('b') {
        SendOffer::Blocked { waiter } => waiter,
        other => panic!("expected Blocked, got {other:?}"),
    };
    core.close();
    core.close();
    assert!(core.is_closed());
    assert_eq!(core.sender_count(), 1);
    assert_eq!(core.blocked_waiters(), vec![waiter]);
    assert_eq!(core.offer_send('c'), SendOffer::Rejected('c'));
    assert_eq!(core.try_send('d'), Err(TrySendError::Closed('d')));
    assert_eq!(core.poll_send(waiter), SendPoll::Failed('b'));
    assert_eq!(core.poll_send(waiter), SendPoll::Cancelled);
    assert_eq!(core.try_recv(), Ok('a'));
    assert_eq!(core.try_recv(), Err(TryRecvError::Disconnected));
}

use more_actors::channels::oneshot::{OneshotCore, PollRecv, RecvError, SendError, TryRecvError};

#[test]
fn value_lands_and_is_consumed_once() {
    let mut core = OneshotCore::new();
    assert_eq!(core.poll_recv(), PollRecv::Pending);
    assert_eq!(core.try_recv(), Err(TryRecvError::Empty));

    assert_eq!(core.send('a'), Ok(()));
    assert!(core.has_value());
    assert_eq!(core.try_recv(), Ok('a'));
    assert_eq!(core.try_recv(), Err(TryRecvError::Closed));
    assert_eq!(core.poll_recv(), PollRecv::Closed);
}

#[test]
fn receiver_gone_before_send_fails_the_send() {
    let mut core = OneshotCore::new();
    core.receiver_gone();
    assert!(core.is_closed());
    assert_eq!(core.send('a'), Err(SendError('a')));
    assert_eq!(core.try_recv(), Err(TryRecvError::Closed));
}

#[test]
fn close_abandons_even_a_sent_value() {
    let mut core = OneshotCore::new();
    assert_eq!(core.send('a'), Ok(()));
    assert!(!core.is_abandoned(), "not abandoned until closed");
    core.close();
    assert!(core.is_abandoned());
    assert_eq!(core.try_recv(), Err(TryRecvError::Closed));
}

#[test]
fn sender_gone_leaves_a_sent_value_receivable() {
    let mut core = OneshotCore::new();
    assert_eq!(core.send('a'), Ok(()));
    core.sender_gone();
    assert_eq!(core.poll_recv(), PollRecv::Ready, "value still lands");
    assert_eq!(core.try_recv(), Ok('a'));

    let mut empty = OneshotCore::<char>::new();
    empty.sender_gone();
    assert_eq!(empty.poll_recv(), PollRecv::Closed);
    assert_eq!(empty.try_recv(), Err(TryRecvError::Closed));
}

#[test]
fn second_send_fails_at_core_level() {
    let mut core = OneshotCore::new();
    assert_eq!(core.send('a'), Ok(()));
    assert_eq!(core.send('b'), Err(SendError('b')));
    assert_eq!(core.try_recv(), Ok('a'));
}

#[test]
fn send_fails_when_receiver_was_dropped() {
    let mut core = OneshotCore::<char>::new();
    core.receiver_gone();
    assert!(core.is_closed());
    assert!(core.is_abandoned());
    assert_eq!(core.send('a'), Err(SendError('a')));
}

#[test]
fn try_recv_after_close_reports_closed() {
    let mut core = OneshotCore::<char>::new();
    core.close();
    assert_eq!(core.try_recv(), Err(TryRecvError::Closed));
}

#[test]
fn a_blocking_receive_waits_takes_and_leaves() {
    let mut core = OneshotCore::<char>::new();
    assert_eq!(core.recv_round(), None, "nothing yet: park");
    assert_eq!(core.send('a'), Ok(()));
    assert_eq!(core.recv_round(), Some(Ok('a')));
    assert_eq!(core.try_recv(), Err(TryRecvError::Closed));

    let mut empty = OneshotCore::<char>::new();
    empty.sender_gone();
    assert_eq!(empty.recv_round(), Some(Err(RecvError)));
}

//! A one-shot channel: exactly one value travels from one sender to one
//! receiver.
//!
//! [`OneshotCore`] is a plain value that a driver steps through. A receiver
//! that goes away before the value is sent makes the send fail with the value
//! handed back; a sender that goes away before sending closes the channel.

use vstd::prelude::*;

verus! {

/// What the single slot holds.
#[derive(Debug)]
pub enum Slot<T> {
    /// Nothing was sent yet.
    Empty,
    /// A value was sent and waits for the receiver.
    Value(T),
    /// The value was received.
    Taken,
    /// The receiver went away without receiving.
    Dropped,
}

/// The channel as a mathematical value.
pub struct OneshotState<T> {
    pub slot: Slot<T>,
    pub sender_alive: bool,
    pub receiver_alive: bool,
}

impl<T> OneshotState<T> {
    /// A receiver that is gone left nothing to be received.
    pub open spec fn wf(self) -> bool {
        !self.receiver_alive ==> self.slot is Taken || self.slot is Dropped
    }

    /// The state after the receiver half closes without receiving.
    pub open spec fn close(self) -> Self {
        if self.slot is Empty || self.slot is Value {
            OneshotState { slot: Slot::Dropped, ..self }
        } else {
            self
        }
    }

    /// What a poll sees.
    pub open spec fn poll(self) -> PollRecv {
        match self.slot {
            Slot::Value(_) => PollRecv::Ready,
            Slot::Empty if self.sender_alive => PollRecv::Pending,
            _ => PollRecv::Closed,
        }
    }
}

/// The pure state machine behind the oneshot channel.
///
/// The slot is `Empty` until a value is sent, then `Value`, then `Taken` once
/// received. The terminal `Dropped` state records a receiver that went away
/// without ever receiving.
#[derive(Debug)]
pub struct OneshotCore<T> {
    slot: Slot<T>,
    sender_alive: bool,
    receiver_alive: bool,
}

/// Outcome of [`OneshotCore::poll_recv`], the predicate behind a blocking
/// `recv`.
#[derive(Debug, Clone, Copy, PartialEq, Eq, Structural)]
pub enum PollRecv {
    /// A value is ready to be taken.
    Ready,
    /// No value yet; keep waiting.
    Pending,
    /// The sender is gone (or the channel was closed): no value will ever
    /// arrive.
    Closed,
}

/// The receiver is gone: the value comes back.
#[derive(Debug, PartialEq, Eq)]
pub struct SendError<T>(pub T);

/// The channel was closed without a value ever being sent.
#[derive(Debug, Clone, Copy, PartialEq, Eq, Structural)]
pub struct RecvError;

/// [`OneshotCore::try_recv`] failed.
#[derive(Debug, Clone, Copy, PartialEq, Eq, Structural)]
pub enum TryRecvError {
    /// No value yet, and the sender may still send one.
    Empty,
    /// The sender is gone (or the value was already received).
    Closed,
}

impl<T> View for OneshotCore<T> {
    type V = OneshotState<T>;

    closed spec fn view(&self) -> OneshotState<T> {
        OneshotState {
            slot: self.slot,
            sender_alive: self.sender_alive,
            receiver_alive: self.receiver_alive,
        }
    }
}

impl<T> Default for OneshotCore<T> {
    fn default() -> (core: Self)
        ensures
            core@ == (OneshotState::<T> {
                slot: Slot::Empty,
                sender_alive: true,
                receiver_alive: true,
            }),
    {
        Self::new()
    }
}

impl<T> OneshotCore<T> {
    /// The invariant that every operation keeps.
    pub open spec fn wf(&self) -> bool {
        self@.wf()
    }

    /// An empty channel with both halves alive.
    pub fn new() -> (core: Self)
        ensures
            core.wf(),
            core@ == (OneshotState::<T> {
                slot: Slot::Empty,
                sender_alive: true,
                receiver_alive: true,
            }),
    {
        OneshotCore { slot: Slot::Empty, sender_alive: true, receiver_alive: true }
    }

    /// Send the one value. Fails if the receiver is gone or a value was
    /// already sent.
    pub fn send(&mut self, value: T) -> (result: Result<(), SendError<T>>)
        requires
            old(self).wf(),
        ensures
            final(self).wf(),
            match result {
                Ok(()) => {
                    &&& old(self)@.slot is Empty
                    &&& final(self)@ == (OneshotState { slot: Slot::Value(value), ..old(self)@ })
                },
                Err(SendError(back)) => {
                    &&& !(old(self)@.slot is Empty)
                    &&& back == value
                    &&& final(self)@ == old(self)@
                },
            },
    {
        match self.slot {
            Slot::Empty => {
                self.slot = Slot::Value(value);
                Ok(())
            },
            _ => Err(SendError(value)),
        }
    }

    /// Take the value if it is there, without waiting.
    pub fn try_recv(&mut self) -> (result: Result<T, TryRecvError>)
        requires
            old(self).wf(),
        ensures
            final(self).wf(),
            match result {
                Ok(value) => {
                    &&& old(self)@.slot == Slot::Value(value)
                    &&& final(self)@ == (OneshotState { slot: Slot::Taken, ..old(self)@ })
                },
                Err(TryRecvError::Empty) => {
                    &&& old(self)@.slot is Empty
                    &&& old(self)@.sender_alive
                    &&& final(self)@ == old(self)@
                },
                Err(TryRecvError::Closed) => {
                    &&& !(old(self)@.slot is Value)
                    &&& old(self)@.slot is Empty ==> !old(self)@.sender_alive
                    &&& final(self)@ == old(self)@
                },
            },
    {
        match self.slot {
            Slot::Value(_) => {
                let mut taken = Slot::Taken;
                core::mem::swap(&mut self.slot, &mut taken);
                match taken {
                    Slot::Value(value) => Ok(value),
                    _ => Err(TryRecvError::Closed),
                }
            },
            Slot::Empty => if self.sender_alive {
                Err(TryRecvError::Empty)
            } else {
                Err(TryRecvError::Closed)
            },
            _ => Err(TryRecvError::Closed),
        }
    }

    /// Non-consuming poll: `PollRecv::Ready` means a subsequent
    /// [`OneshotCore::try_recv`] will succeed.
    pub fn poll_recv(&mut self) -> (poll: PollRecv)
        requires
            old(self).wf(),
        ensures
            final(self)@ == old(self)@,
            poll == old(self)@.poll(),
    {
        match self.slot {
            Slot::Empty => if self.sender_alive {
                PollRecv::Pending
            } else {
                PollRecv::Closed
            },
            Slot::Value(_) => PollRecv::Ready,
            Slot::Taken | Slot::Dropped => PollRecv::Closed,
        }
    }

    /// One round of a blocking `recv`, which consumes the receiver: the
    /// outcome once there is one, or `None` while the caller has to park.
    pub fn recv_round(&mut self) -> (outcome: Option<Result<T, RecvError>>)
        requires
            old(self).wf(),
        ensures
            final(self).wf(),
            match outcome {
                Some(Ok(value)) => {
                    &&& old(self)@.slot == Slot::Value(value)
                    &&& final(self)@ == (OneshotState {
                        slot: Slot::Taken,
                        receiver_alive: false,
                        ..old(self)@
                    })
                },
                Some(Err(_)) => {
                    &&& old(self)@.poll() is Closed
                    &&& final(self)@ == (OneshotState { receiver_alive: false, ..old(self)@.close() })
                },
                None => {
                    &&& old(self)@.poll() is Pending
                    &&& final(self)@ == old(self)@
                },
            },
    {
        match self.poll_recv() {
            PollRecv::Ready => {
                let value = self.try_recv();
                self.receiver_gone();
                match value {
                    Ok(value) => Some(Ok(value)),
                    Err(_) => Some(Err(RecvError)),
                }
            },
            PollRecv::Closed => {
                self.receiver_gone();
                Some(Err(RecvError))
            },
            PollRecv::Pending => None,
        }
    }

    /// The receiver half closes without receiving: further sends fail with
    /// [`SendError`] and the channel reports [`OneshotCore::is_abandoned`]
    /// unless its value was received before.
    pub fn close(&mut self)
        requires
            old(self).wf(),
        ensures
            final(self).wf(),
            final(self)@ == old(self)@.close(),
    {
        match self.slot {
            Slot::Empty | Slot::Value(_) => {
                self.slot = Slot::Dropped;
            },
            _ => {},
        }
    }

    /// The sender half was dropped.
    pub fn sender_gone(&mut self)
        requires
            old(self).wf(),
        ensures
            final(self).wf(),
            final(self)@ == (OneshotState { sender_alive: false, ..old(self)@ }),
    {
        self.sender_alive = false;
    }

    /// The receiver half was dropped, which also closes the channel.
    pub fn receiver_gone(&mut self)
        requires
            old(self).wf(),
        ensures
            final(self).wf(),
            final(self)@ == (OneshotState { receiver_alive: false, ..old(self)@.close() }),
    {
        self.close();
        self.receiver_alive = false;
    }

    /// True once a `send` can no longer succeed.
    pub fn is_closed(&self) -> (closed: bool)
        requires
            self.wf(),
        ensures
            closed == !(self@.slot is Empty),
    {
        let empty = match self.slot {
            Slot::Empty => true,
            _ => false,
        };
        !empty || !self.receiver_alive
    }

    /// True if the receiver went away without ever receiving a value.
    pub fn is_abandoned(&self) -> (abandoned: bool)
        ensures
            abandoned == (self@.slot is Dropped),
    {
        match self.slot {
            Slot::Dropped => true,
            _ => false,
        }
    }

    /// True while the value sits in the channel, unreceived.
    pub fn has_value(&self) -> (has: bool)
        ensures
            has == (self@.slot is Value),
    {
        match self.slot {
            Slot::Value(_) => true,
            _ => false,
        }
    }
}

/// One operation on the channel: a send that succeeds, a receive that
/// succeeds, a close, or the loss of a half.
pub open spec fn step<T>(from: OneshotState<T>, to: OneshotState<T>) -> bool {
    ||| from.slot is Empty && to.slot is Value && to == (OneshotState { slot: to.slot, ..from })
    ||| from.slot is Value && to == (OneshotState { slot: Slot::<T>::Taken, ..from })
    ||| to == from.close()
    ||| to == (OneshotState { sender_alive: false, ..from })
    ||| to == (OneshotState { receiver_alive: false, ..from.close() })
}

/// A one-shot carries one value: once a send can no longer succeed (because
/// one did, or because the receiver closed), none ever does again, and every
/// operation keeps the invariant.
pub proof fn law_at_most_one_send<T>(from: OneshotState<T>, to: OneshotState<T>)
    requires
        from.wf(),
        step(from, to),
    ensures
        to.wf(),
        !(from.slot is Empty) ==> !(to.slot is Empty),
        from.slot is Taken ==> to.slot is Taken,
        from.slot is Dropped ==> to.slot is Dropped,
{
}

/// A poll that says `Ready` is followed by a receive that takes the value
/// that was sent, also when the sender has gone away since.
pub proof fn law_sender_may_leave_after_sending<T>(state: OneshotState<T>, value: T)
    requires
        state.slot == Slot::Value(value),
    ensures
        state.poll() is Ready,
        (OneshotState { sender_alive: false, ..state }).poll() is Ready,
        (OneshotState { sender_alive: false, ..state }).slot == Slot::Value(value),
{
}

/// A closed channel stays closed: closing twice is closing once, and no poll
/// after it is ever ready.
pub proof fn law_close_is_final<T>(state: OneshotState<T>)
    ensures
        state.close().close() == state.close(),
        state.close().poll() is Closed,
{
}

/// Closing spoils what was not received yet, sent or not; what was received
/// stays received, and neither end leaves by it.
pub proof fn law_closing_spoils_what_is_not_received<T>(state: OneshotState<T>)
    ensures
        state.slot is Taken ==> state.close().slot is Taken,
        !(state.slot is Taken) ==> state.close().slot is Dropped,
        state.close().sender_alive == state.sender_alive,
        state.close().receiver_alive == state.receiver_alive,
{
}

/// A poll is ready while a value lies there, waits while one may still come,
/// and says closed in every other case.
pub proof fn law_poll_waits_only_for_a_sender<T>(state: OneshotState<T>)
    ensures
        state.poll() is Ready <==> state.slot is Value,
        state.poll() is Pending <==> state.slot is Empty && state.sender_alive,
        state.slot is Taken || state.slot is Dropped ==> state.poll() is Closed,
{
}

} // verus!

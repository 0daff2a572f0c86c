//! Identities of parked operations.

use vstd::prelude::*;

verus! {

/// Identifies one parked operation inside a channel core: a blocked `send`
/// holding its value, a waiting `recv`, or a parked `changed()`.
///
/// Cores allocate ids monotonically, so a smaller id parked earlier.
#[derive(Debug, Clone, Copy, PartialEq, Eq, Hash, PartialOrd, Ord, Structural)]
pub struct WaiterId(pub u64);

/// Monotonic allocator for [`WaiterId`]s, owned by each core. It counts the
/// ids handed out so far.
#[derive(Debug)]
pub struct WaiterIds {
    pub next: u64,
}

impl Default for WaiterIds {
    fn default() -> (ids: Self)
        ensures
            ids.next == 0,
    {
        WaiterIds { next: 0 }
    }
}

impl WaiterIds {
    /// A fresh id, larger than every id handed out before.
    pub fn allocate(&mut self) -> (id: WaiterId)
        requires
            old(self).next < u64::MAX,
        ensures
            id.0 == old(self).next + 1,
            final(self).next == id.0,
    {
        self.next = self.next + 1;
        WaiterId(self.next)
    }
}

/// One round of a blocking operation: either it is done, or its caller parks
/// until the bell rings and then tries another round.
#[derive(Debug, PartialEq, Eq)]
pub enum Round<R> {
    /// The operation is over; `bell` says whether others may have been waiting
    /// for what it did.
    Done { result: R, bell: bool },
    /// Nothing yet: park as `waiter`.
    Park { waiter: WaiterId },
}

} // verus!

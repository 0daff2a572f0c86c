//! The games as pure state machines, shared by the server actors
//! (multiplayer) and a single-player client. No runtime and no transport:
//! commands go in, events come out, and time is an argument.

pub mod agreement;
pub mod broadcast;
pub mod button;
pub mod mpsc;
pub mod select;
pub mod timer;
pub mod watch;

pub use broadcast::{BroadcastSim, BROADCAST_HOST_CONN};
pub use button::ButtonSim;
pub use mpsc::MpscSim;
pub use select::{LoopSelectSim, SelectSim};
pub use timer::TimerSim;
pub use watch::WatchSim;

use vstd::prelude::*;

verus! {

/// The connection that the single-player games act as: there is no server to
/// hand out ids.
pub const LOCAL_CONN: u64 = 0;

} // verus!

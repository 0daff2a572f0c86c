//! Synchronous channel state machines mirroring the four channel types of
//! tokio: [`oneshot`], [`mpsc`], [`broadcast`] and [`watch`].
//!
//! Each core is a pure value, free of locks, threads and clocks. Operations
//! return outcome enums, and an operation that cannot complete is parked
//! under a [`WaiterId`], so the wake order is deterministic. A blocking
//! handle is a loop around a core: poll, and park while the poll says so.

pub mod broadcast;
pub mod calls;
pub mod mpsc;
pub mod oneshot;
pub mod runs;
pub mod waiter;
pub mod watch;

pub use waiter::{Round, WaiterId, WaiterIds};

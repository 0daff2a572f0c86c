//! The pages of the deck as state machines: what a page holds, what it does
//! with what it hears and with what its viewer does, and what it shows.
//! Signals, sockets and markup stay outside.

pub mod broadcast;
pub mod button;
pub mod clock;
pub mod deck;
pub mod link;
pub mod mpsc;
pub mod watch;

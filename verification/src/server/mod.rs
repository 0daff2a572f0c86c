//! What the server decides: who may do what, who sits where, and what each
//! game's actor and sockets do with a message. Transport and tasks stay
//! outside.

pub mod auth;
pub mod broadcast;
pub mod button;
pub mod mpsc;
pub mod ticking;
pub mod plane;
pub mod session;
pub mod supervisor;
pub mod tickets;
pub mod watch;

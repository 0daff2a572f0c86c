//! What the games' pages show: the client's copy of each game's state and the
//! texts, classes and positions drawn from it. Signals and markup stay
//! outside.

pub mod broadcast;
pub mod button;
pub mod mpsc;
pub mod palette;
pub mod qr;
pub mod select;
pub mod timer;
pub mod watch;

//! Channels, games and seats of a live talk about actors.
//!
//! * [`channels`]: the four channel types as pure state machines.
//! * [`sim`]: the games, driven by commands and a clock.
//! * [`clock`]: what it takes to be driven by a clock.
//! * [`protocol`]: what crosses the wire between the room and the games.
//! * [`server`]: who may do what, who sits where, and what each game's actor
//!   does with a message.
//! * [`client`], [`deck`], [`games`]: what the browser side decides and shows.
//! * [`pages`]: the pages as state machines.
//! * [`highlight`], [`export`]: code on slides, and the slides as static pages.
//! * [`text`]: small operations on text.

pub mod channels;
pub mod client;
pub mod clock;
pub mod deck;
pub mod export;
pub mod games;
pub mod highlight;
pub mod pages;
pub mod protocol;
pub mod server;
pub mod sim;
pub mod text;

//! A rules engine for the Game of the Goose: players race along a linear
//! track of 64 squares by rolling two dice, with special squares that
//! redirect, repeat, or reverse movement, until a player reaches the final
//! square.
//!
//! The move-resolution engine computes, from a player's position and a dice
//! roll, the full chain of consequences (landing, bouncing off the end,
//! extra hops on goose squares, displacing other players, the bridge
//! shortcut, winning) and returns the ordered sequence of events describing
//! what happened.  Every public operation is specified against a ghost
//! model of the board and the roster, and the implementation is verified
//! against that model.

pub mod board;
pub mod engine;
pub mod events;
pub mod laws;
pub mod roster;
pub mod simple;

pub use roster::SampleTheGoose;
pub use simple::SimpleTheGoose;

pub use events::Command;
pub use events::Error;
pub use events::Event;
pub use events::SampleEvents;
pub use events::StateError;
pub use board::AddPosition;
pub use board::PositionType;
pub use board::SamplePosition;

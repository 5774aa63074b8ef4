//! The engine of a small text-based multiplayer world: a graph of rooms, the
//! roster of connected players, and the interpreter that turns one line of a
//! player's input into changes of the roster and messages to the players who
//! can observe them.

pub mod search;
pub mod text;
pub mod area;
pub mod messages;
pub mod player;
pub mod command;
pub mod engine;
pub mod laws;

//! A "guess the song" quiz engine: answer normalisation and fuzzy matching,
//! the roster, skip votes, answer races and the round scheduler.

pub mod collector;
pub mod database;
pub mod matcher;
pub mod render;
pub mod roster;
pub mod scheduler;
pub mod scoreboard;
pub mod skip_votes;
pub mod spotify;
pub mod structs;
pub mod text;
pub mod util;

//! What the quiz needs from the music provider: playlist addresses and the
//! intake of a playlist's tracks.

pub mod intake;
pub mod spotify_api;

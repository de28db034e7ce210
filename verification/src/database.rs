//! The records that the store keeps: songs, playlists, games and scores.

pub mod game;
pub mod playlist;
pub mod song;

//! Plain records of the quiz: playlists, songs, genres, finished games and
//! the place of a player in one.

use vstd::prelude::*;

verus! {

/// A playlist that somebody has registered. Times are in seconds since
/// 1970-01-01 00:00:00 UTC.
#[derive(Debug)]
pub struct Playlist {
    pub id: i64,
    pub playlist_url: String,
    pub playlist_name: String,
    pub amount_songs: i64,
    pub added_by: String,
    pub added_at: i64,
    pub last_update: i64,
}

impl Playlist {
    pub fn new(
        id: i64,
        playlist_url: String,
        playlist_name: String,
        amount_songs: i64,
        added_by: String,
        added_at: i64,
        last_update: i64,
    ) -> (playlist: Self)
        ensures
            playlist.id == id,
            playlist.playlist_url == playlist_url,
            playlist.playlist_name == playlist_name,
            playlist.amount_songs == amount_songs,
            playlist.added_by == added_by,
            playlist.added_at == added_at,
            playlist.last_update == last_update,
    {
        Self { id, playlist_url, playlist_name, amount_songs, added_by, added_at, last_update }
    }
}

/// A song as a playlist lists it: where its preview is, its title, its
/// artists and its album.
pub struct Song {
    pub preview_url: String,
    pub song_name: String,
    pub artist_name: String,
    pub album_name: String,
}

impl Clone for Song {
    fn clone(&self) -> (copy: Self)
        ensures
            copy == *self,
    {
        Song {
            preview_url: self.preview_url.clone(),
            song_name: self.song_name.clone(),
            artist_name: self.artist_name.clone(),
            album_name: self.album_name.clone(),
        }
    }
}

impl Song {
    pub fn new(
        preview_url: String,
        song_name: String,
        artist_name: String,
        album_name: String,
    ) -> (song: Self)
        ensures
            song.preview_url == preview_url,
            song.song_name == song_name,
            song.artist_name == artist_name,
            song.album_name == album_name,
    {
        Self { preview_url, song_name, artist_name, album_name }
    }
}

/// A musical genre.
pub struct Genre {
    id: u32,
    name: String,
}

/// What a [`Genre`] is in contracts.
pub struct GenreView {
    pub id: u32,
    pub name: Seq<char>,
}

impl View for Genre {
    type V = GenreView;

    closed spec fn view(&self) -> GenreView {
        GenreView { id: self.id, name: self.name@ }
    }
}

impl Genre {
    pub fn new(id: u32, name: String) -> (genre: Self)
        ensures
            genre@ == (GenreView { id, name: name@ }),
    {
        Self { id, name }
    }
}

/// A finished game: which playlist it played, how many songs, and how long
/// it took.
pub struct GameResult {
    id: u32,
    playlist_id: u32,
    amount_songs: u16,
    length: u32,
}

/// What a [`GameResult`] is in contracts.
pub struct GameResultView {
    pub id: u32,
    pub playlist_id: u32,
    pub amount_songs: u16,
    pub length: u32,
}

impl View for GameResult {
    type V = GameResultView;

    closed spec fn view(&self) -> GameResultView {
        GameResultView {
            id: self.id,
            playlist_id: self.playlist_id,
            amount_songs: self.amount_songs,
            length: self.length,
        }
    }
}

impl GameResult {
    pub fn new(id: u32, playlist_id: u32, amount_songs: u16, length: u32) -> (result: Self)
        ensures
            result@ == (GameResultView { id, playlist_id, amount_songs, length }),
    {
        Self { id, playlist_id, amount_songs, length }
    }
}

/// The score of one player in one game.
pub struct Ranking {
    game_id: u32,
    user_id: u32,
    score: u16,
}

/// What a [`Ranking`] is in contracts.
pub struct RankingView {
    pub game_id: u32,
    pub user_id: u32,
    pub score: u16,
}

impl View for Ranking {
    type V = RankingView;

    closed spec fn view(&self) -> RankingView {
        RankingView { game_id: self.game_id, user_id: self.user_id, score: self.score }
    }
}

impl Ranking {
    pub fn new(game_id: u32, user_id: u32, score: u16) -> (ranking: Self)
        ensures
            ranking@ == (RankingView { game_id, user_id, score }),
    {
        Self { game_id, user_id, score }
    }
}

} // verus!

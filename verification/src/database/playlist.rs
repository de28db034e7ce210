//! A playlist as the store keeps it.

use crate::database::song::{last_segment, last_segment_of};
use vstd::prelude::*;

verus! {

/// One playlist: the store's row number, the provider's identifier (bare, or
/// as a `a:b:id` resource name), its name, the number of its songs, and the
/// time of its last update in seconds since 1970-01-01 00:00:00 UTC.
#[derive(Debug)]
pub struct Playlist {
    pub id: i64,
    pub spotify_id: String,
    pub name: String,
    pub amount_songs: i64,
    pub last_update: i64,
}

/// What a [`Playlist`] is in contracts.
pub struct PlaylistView {
    pub id: i64,
    pub spotify_id: Seq<char>,
    pub name: Seq<char>,
    pub amount_songs: i64,
    pub last_update: i64,
}

impl View for Playlist {
    type V = PlaylistView;

    open spec fn view(&self) -> PlaylistView {
        PlaylistView {
            id: self.id,
            spotify_id: self.spotify_id@,
            name: self.name@,
            amount_songs: self.amount_songs,
            last_update: self.last_update,
        }
    }
}

/// The start of every playlist's web address.
pub open spec fn playlist_url_prefix() -> Seq<char> {
    "https://open.spotify.com/playlist/"@
}

/// The web address of the playlist with the identifier `spotify_id`.
pub open spec fn playlist_url(spotify_id: Seq<char>) -> Seq<char> {
    playlist_url_prefix() + last_segment(spotify_id)
}

impl Playlist {
    pub fn new(
        id: i64,
        spotify_id: String,
        name: String,
        amount_songs: i64,
        last_update: i64,
    ) -> (playlist: Self)
        ensures
            playlist.id == id,
            playlist.spotify_id == spotify_id,
            playlist.name == name,
            playlist.amount_songs == amount_songs,
            playlist.last_update == last_update,
    {
        Self { id, spotify_id, name, amount_songs, last_update }
    }

    /// The playlist's web address: the fixed prefix and then what follows the
    /// last colon of the provider's identifier.
    pub fn get_url(&self) -> (url: String)
        ensures
            url@ == playlist_url(self.spotify_id@),
    {
        let id = last_segment_of(self.spotify_id.as_str());
        String::from_str("https://open.spotify.com/playlist/").concat(id.as_str())
    }
}

} // verus!

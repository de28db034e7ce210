//! Playlist addresses as users paste them.

use crate::spotify::spotify_api::{is_playlist_url, playlist_id};
use vstd::prelude::*;

verus! {

/// The playlist identifier in the accepted playlist address `url`: the whole
/// run of letters and digits behind `spotify.com/playlist/`.
pub fn get_id_from_url(url: &str) -> (id: String)
    requires
        is_playlist_url(url@),
    ensures
        id@ == playlist_id(url@),
{
    crate::spotify::spotify_api::get_id_from_url(url)
}

/// Whether `url` is an accepted playlist address.
pub fn validate_url(url: &String) -> (valid: bool)
    ensures
        valid == is_playlist_url(url@),
{
    crate::spotify::spotify_api::validate_url(url)
}

} // verus!

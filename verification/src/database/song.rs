//! A playable song as the store keeps it.

use vstd::prelude::*;

verus! {

/// One playable song: the store's row number, the provider's identifier
/// (bare, or as a `a:b:id` resource name), title, artist names joined into
/// one string, and the locator of the audio preview.
#[derive(Debug)]
pub struct Song {
    pub id: i64,
    pub spotify_id: String,
    pub song_name: String,
    pub artist_name: String,
    pub preview_url: String,
}

/// What a [`Song`] is in contracts.
pub struct SongView {
    pub id: i64,
    pub spotify_id: Seq<char>,
    pub song_name: Seq<char>,
    pub artist_name: Seq<char>,
    pub preview_url: Seq<char>,
}

impl View for Song {
    type V = SongView;

    open spec fn view(&self) -> SongView {
        SongView {
            id: self.id,
            spotify_id: self.spotify_id@,
            song_name: self.song_name@,
            artist_name: self.artist_name@,
            preview_url: self.preview_url@,
        }
    }
}

impl Clone for Song {
    fn clone(&self) -> (copy: Self)
        ensures
            copy == *self,
    {
        Song {
            id: self.id,
            spotify_id: self.spotify_id.clone(),
            song_name: self.song_name.clone(),
            artist_name: self.artist_name.clone(),
            preview_url: self.preview_url.clone(),
        }
    }
}

/// The views of `songs`, in order.
pub open spec fn song_views(songs: Seq<Song>) -> Seq<SongView> {
    songs.map_values(|s: Song| s@)
}

/// The index just behind the last colon in `s`; 0 where `s` has none.
pub open spec fn after_last_colon(s: Seq<char>) -> int
    decreases s.len(),
{
    if s.len() == 0 {
        0
    } else if s.last() == ':' {
        s.len() as int
    } else {
        after_last_colon(s.drop_last())
    }
}

/// What follows the last colon of `s`; all of `s` where it has none.
pub open spec fn last_segment(s: Seq<char>) -> Seq<char> {
    s.skip(after_last_colon(s))
}

/// The start of every song's web address.
pub open spec fn track_url_prefix() -> Seq<char> {
    "https://open.spotify.com/track/"@
}

/// The index that [`after_last_colon`] gives lies within `s`; what follows it
/// holds no colon, and a colon stands just before it unless it is 0.
pub proof fn lemma_after_last_colon(s: Seq<char>)
    ensures
        0 <= after_last_colon(s) <= s.len(),
        forall|i: int| after_last_colon(s) <= i < s.len() ==> s[i] != ':',
        after_last_colon(s) > 0 ==> s[after_last_colon(s) - 1] == ':',
    decreases s.len(),
{
    if s.len() > 0 && s.last() != ':' {
        let front = s.drop_last();
        lemma_after_last_colon(front);
        assert forall|i: int| after_last_colon(s) <= i < s.len() implies s[i] != ':' by {
            if i < front.len() {
                assert(front[i] == s[i]);
            }
        }
        if after_last_colon(s) > 0 {
            assert(front[after_last_colon(s) - 1] == s[after_last_colon(s) - 1]);
        }
    }
}

/// The characters of `s` behind its last colon.
pub fn last_segment_of(s: &str) -> (out: String)
    ensures
        out@ == last_segment(s@),
{
    let v = crate::text::chars_of(s);
    let mut start: usize = 0;
    let mut i: usize = 0;
    while i < v.len()
        invariant
            i <= v.len(),
            start == after_last_colon(v@.take(i as int)),
            start <= i,
        decreases v.len() - i,
    {
        proof {
            assert(v@.take(i + 1).drop_last() =~= v@.take(i as int));
            assert(v@.take(i + 1).last() == v@[i as int]);
        }
        if v[i] == ':' {
            start = i + 1;
        }
        i += 1;
    }
    assert(v@.take(v.len() as int) =~= v@);
    let mut out = String::new();
    let mut k: usize = start;
    while k < v.len()
        invariant
            start <= k <= v.len(),
            out@ == v@.subrange(start as int, k as int),
        decreases v.len() - k,
    {
        out.push(v[k]);
        assert(v@.subrange(start as int, k as int).push(v@[k as int]) =~= v@.subrange(
            start as int,
            k + 1,
        ));
        k += 1;
    }
    assert(v@.subrange(start as int, v.len() as int) =~= v@.skip(start as int));
    out
}

impl Song {
    pub fn new(
        id: i64,
        spotify_id: String,
        song_name: String,
        artist_name: String,
        preview_url: String,
    ) -> (song: Self)
        ensures
            song.id == id,
            song.spotify_id == spotify_id,
            song.song_name == song_name,
            song.artist_name == artist_name,
            song.preview_url == preview_url,
    {
        Self { id, spotify_id, song_name, artist_name, preview_url }
    }

    /// The song's web address: the fixed prefix and then what follows the
    /// last colon of the provider's identifier.
    pub fn get_url(&self) -> (url: String)
        ensures
            url@ == track_url_prefix() + last_segment(self.spotify_id@),
    {
        let id = last_segment_of(self.spotify_id.as_str());
        String::from_str("https://open.spotify.com/track/").concat(id.as_str())
    }
}

} // verus!

//! The intake of a playlist's tracks: pages of items come in, and of each
//! page the playable songs are kept, in playlist order.

use crate::database::song::{song_views, Song, SongView};
use vstd::prelude::*;

verus! {

/// The number of items that is asked for with each page.
pub const PAGE_LIMIT: u32 = 100;

/// A track as the playlist source describes it. Its identifier and its
/// preview may be missing.
pub struct FetchedTrack {
    pub id: Option<String>,
    pub name: String,
    pub artists: Vec<String>,
    pub preview_url: Option<String>,
}

/// What a [`FetchedTrack`] is in contracts.
pub struct FetchedTrackView {
    pub id: Option<Seq<char>>,
    pub name: Seq<char>,
    pub artists: Seq<Seq<char>>,
    pub preview_url: Option<Seq<char>>,
}

/// The views of `names`, in order.
pub open spec fn name_views(names: Seq<String>) -> Seq<Seq<char>> {
    names.map_values(|n: String| n@)
}

impl View for FetchedTrack {
    type V = FetchedTrackView;

    open spec fn view(&self) -> FetchedTrackView {
        FetchedTrackView {
            id: match self.id {
                Some(id) => Some(id@),
                None => None,
            },
            name: self.name@,
            artists: name_views(self.artists@),
            preview_url: match self.preview_url {
                Some(url) => Some(url@),
                None => None,
            },
        }
    }
}

/// What stands at one place of a playlist: nothing that can be read, an
/// episode of a show, or a track.
pub enum PlaylistItem {
    Missing,
    Episode,
    Track(FetchedTrack),
}

/// What a [`PlaylistItem`] is in contracts.
pub enum PlaylistItemView {
    Missing,
    Episode,
    Track(FetchedTrackView),
}

impl View for PlaylistItem {
    type V = PlaylistItemView;

    open spec fn view(&self) -> PlaylistItemView {
        match self {
            PlaylistItem::Missing => PlaylistItemView::Missing,
            PlaylistItem::Episode => PlaylistItemView::Episode,
            PlaylistItem::Track(track) => PlaylistItemView::Track(track@),
        }
    }
}

/// The views of `items`, in order.
pub open spec fn item_views(items: Seq<PlaylistItem>) -> Seq<PlaylistItemView> {
    items.map_values(|i: PlaylistItem| i@)
}

/// `names` in one text, with a comma and a space between neighbours.
pub open spec fn joined(names: Seq<Seq<char>>) -> Seq<char>
    decreases names.len(),
{
    if names.len() == 0 {
        Seq::empty()
    } else if names.len() == 1 {
        names[0]
    } else {
        joined(names.drop_last()) + ", "@ + names.last()
    }
}

/// The song that `item` gives to a quiz, if it is playable: a track with an
/// identifier and a preview. The store's row number of a fetched song is 0.
pub open spec fn playable(item: PlaylistItemView) -> Option<SongView> {
    match item {
        PlaylistItemView::Track(track) => match (track.id, track.preview_url) {
            (Some(id), Some(preview_url)) => Some(
                SongView {
                    id: 0,
                    spotify_id: id,
                    song_name: track.name,
                    artist_name: joined(track.artists),
                    preview_url,
                },
            ),
            _ => None,
        },
        _ => None,
    }
}

/// The songs of the playable items of `items`, in order.
pub open spec fn playable_songs(items: Seq<PlaylistItemView>) -> Seq<SongView>
    decreases items.len(),
{
    if items.len() == 0 {
        Seq::empty()
    } else {
        match playable(items.last()) {
            Some(song) => playable_songs(items.drop_last()).push(song),
            None => playable_songs(items.drop_last()),
        }
    }
}

/// Every song of [`playable_songs`] has a preview that came from a track of
/// `items`, and there are no more songs than items.
pub proof fn lemma_playable_songs(items: Seq<PlaylistItemView>)
    ensures
        playable_songs(items).len() <= items.len(),
        forall|k: int|
            0 <= k < playable_songs(items).len() ==> exists|i: int|
                0 <= i < items.len() && playable(#[trigger] items[i]) == Some(
                    #[trigger] playable_songs(items)[k],
                ),
    decreases items.len(),
{
    if items.len() > 0 {
        let front = items.drop_last();
        lemma_playable_songs(front);
        assert forall|k: int| 0 <= k < playable_songs(items).len() implies exists|i: int|
            0 <= i < items.len() && playable(#[trigger] items[i]) == Some(
                #[trigger] playable_songs(items)[k],
            ) by {
            if k < playable_songs(front).len() {
                let i = choose|i: int|
                    0 <= i < front.len() && playable(#[trigger] front[i]) == Some(
                        playable_songs(front)[k],
                    );
                assert(items[i] == front[i]);
            } else {
                assert(playable(items[items.len() - 1]) == Some(playable_songs(items)[k]));
            }
        }
    }
}

/// The names in one text, with a comma and a space between neighbours.
pub fn join_names(names: &Vec<String>) -> (text: String)
    ensures
        text@ == joined(name_views(names@)),
{
    let mut text = String::new();
    let mut i: usize = 0;
    while i < names.len()
        invariant
            i <= names.len(),
            text@ == joined(name_views(names@).take(i as int)),
        decreases names.len() - i,
    {
        proof {
            let upto = name_views(names@).take(i + 1);
            assert(upto.drop_last() =~= name_views(names@).take(i as int));
            assert(upto.last() == names@[i as int]@);
            if i == 0 {
                assert(text@ + names@[0]@ =~= names@[0]@);
            }
        }
        if i > 0 {
            text.append(", ");
        }
        text.append(names[i].as_str());
        i += 1;
    }
    assert(name_views(names@).take(names@.len() as int) =~= name_views(names@));
    text
}

/// The song that `item` gives to a quiz, if it is playable.
pub fn playable_song(item: &PlaylistItem) -> (song: Option<Song>)
    ensures
        match song {
            Some(s) => playable(item@) == Some(s@),
            None => playable(item@) is None,
        },
{
    match item {
        PlaylistItem::Track(track) => match (&track.id, &track.preview_url) {
            (Some(id), Some(preview_url)) => Some(
                Song::new(
                    0,
                    id.clone(),
                    track.name.clone(),
                    join_names(&track.artists),
                    preview_url.clone(),
                ),
            ),
            _ => None,
        },
        _ => None,
    }
}

/// The intake of one playlist.
pub struct TrackIntake {
    offset: u32,
    songs: Vec<Song>,
    finished: bool,
}

impl TrackIntake {
    /// The number of items that have been asked for so far.
    pub closed spec fn offset(&self) -> u32 {
        self.offset
    }

    /// The songs that have been taken in so far.
    pub closed spec fn songs(&self) -> Seq<SongView> {
        song_views(self.songs@)
    }

    /// No further page is asked for.
    pub closed spec fn finished(&self) -> bool {
        self.finished
    }

    /// An intake that has taken nothing in yet.
    pub fn new() -> (intake: Self)
        ensures
            intake.offset() == 0,
            intake.songs() == Seq::<SongView>::empty(),
            !intake.finished(),
    {
        let intake = TrackIntake { offset: 0, songs: Vec::new(), finished: false };
        assert(intake.songs() =~= Seq::<SongView>::empty());
        intake
    }

    /// The offset of the page to ask for next, with [`PAGE_LIMIT`] as its
    /// limit; none once the intake is finished.
    pub fn next_offset(&self) -> (offset: Option<u32>)
        ensures
            offset == if self.finished() {
                None
            } else {
                Some(self.offset())
            },
    {
        if self.finished {
            None
        } else {
            Some(self.offset)
        }
    }

    /// Takes in the page `items`, of which `has_next` says whether another
    /// page follows it: the playable songs of the page are put behind those
    /// that are there. The intake is finished when no page follows, or when
    /// the next offset would not fit the source's 32 bits.
    pub fn absorb(&mut self, items: &Vec<PlaylistItem>, has_next: bool)
        ensures
            final(self).songs() == old(self).songs() + playable_songs(item_views(items@)),
            final(self).finished() == (old(self).finished() || !has_next || old(self).offset()
                + PAGE_LIMIT > u32::MAX),
            final(self).offset() == if old(self).offset() + PAGE_LIMIT > u32::MAX {
                old(self).offset()
            } else {
                (old(self).offset() + PAGE_LIMIT) as u32
            },
    {
        let ghost before = self.songs();
        let mut i: usize = 0;
        while i < items.len()
            invariant
                i <= items.len(),
                self.offset == old(self).offset,
                self.finished == old(self).finished,
                self.songs() == before + playable_songs(item_views(items@).take(i as int)),
            decreases items.len() - i,
        {
            proof {
                let upto = item_views(items@).take(i + 1);
                assert(upto.drop_last() =~= item_views(items@).take(i as int));
                assert(upto.last() == items@[i as int]@);
            }
            let ghost so_far = self.songs();
            match playable_song(&items[i]) {
                Some(song) => {
                    self.songs.push(song);
                    assert(self.songs() =~= so_far.push(song@));
                    assert(self.songs() =~= before + playable_songs(
                        item_views(items@).take(i + 1),
                    ));
                },
                None => {},
            }
            i += 1;
        }
        assert(item_views(items@).take(items@.len() as int) =~= item_views(items@));
        if !has_next {
            self.finished = true;
        }
        match self.offset.checked_add(PAGE_LIMIT) {
            Some(next) => {
                self.offset = next;
            },
            None => {
                self.finished = true;
            },
        }
    }

    /// The songs that were taken in.
    pub fn into_songs(self) -> (songs: Vec<Song>)
        ensures
            song_views(songs@) == self.songs(),
    {
        self.songs
    }
}

} // verus!

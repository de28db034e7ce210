use regex::Regex;
use song_quiz::database::game::{
    player_id_from_store, player_id_to_store, scores_of_game, Game, Score,
};
use song_quiz::database::playlist::Playlist;
use song_quiz::database::song::{last_segment_of, Song};
use song_quiz::roster::Player;
use song_quiz::scoreboard::ScoreEntry;
use song_quiz::spotify::intake::{
    join_names, playable_song, FetchedTrack, PlaylistItem, TrackIntake, PAGE_LIMIT,
};
use song_quiz::spotify::spotify_api::{find_id_in_url, get_id_from_url, validate_url};
use song_quiz::structs::{GameResult, Genre, Ranking};

const ID: &str = "37i9dQZF1DXcBWIGoYBM5M";

fn urls() -> Vec<&'static str> {
    vec![
        "https://open.spotify.com/playlist/37i9dQZF1DXcBWIGoYBM5M",
        "https://open.spotify.com/playlist/37i9dQZF1DXcBWIGoYBM5M?si=abc123",
        "http://open.spotify.com/playlist/37i9dQZF1DXcBWIGoYBM5M",
        "open.spotify.com/playlist/37i9dQZF1DXcBWIGoYBM5M",
        "www.spotify.com/playlist/abc",
        "https://www.open.spotify.com/playlist/abc?x",
        "spotify.com/playlist/a",
        "spotify.com/playlist/a?",
        "spotify.com/playlist/a?b?c",
        "spotify.com/playlist/",
        "spotify.com/playlist/?x",
        "spotify.com/playlist/a/b",
        "spotify.com/playlist/a b",
        "spotify.com/playlist/abc\n",
        "spotify.com/playlist/abc?q\n",
        "spotify.com/playlist/abc?\nq",
        "https://open.spotify.com/album/37i9dQZF1DXcBWIGoYBM5M",
        "ftp://open.spotify.com/playlist/abc",
        "https://https://spotify.com/playlist/abc",
        "open.www.spotify.com/playlist/abc",
        "www.www.spotify.com/playlist/abc",
        "https:/spotify.com/playlist/abc",
        "httpsspotify.com/playlist/abc",
        "xspotify.com/playlist/abc",
        " spotify.com/playlist/abc",
        "spotifyXcom/playlist/abc",
        "",
        "https://",
        "https://open.example.com/playlist/abc",
        "https://open.spotify.com/playlist/\u{e4}bc",
        "HTTPS://OPEN.SPOTIFY.COM/PLAYLIST/ABC",
    ]
}

#[test]
fn accepted_playlist_addresses() {
    assert!(validate_url(&"https://open.spotify.com/playlist/37i9dQZF1DXcBWIGoYBM5M".to_string()));
    assert!(validate_url(&"open.spotify.com/playlist/37i9dQZF1DXcBWIGoYBM5M?si=1".to_string()));
    assert!(validate_url(&"http://www.spotify.com/playlist/a".to_string()));
    assert!(validate_url(&"spotify.com/playlist/a?".to_string()));
}

#[test]
fn rejected_playlist_addresses() {
    assert!(!validate_url(&"".to_string()));
    assert!(!validate_url(&"spotify.com/playlist/".to_string()));
    assert!(!validate_url(&"spotify.com/playlist/a/b".to_string()));
    assert!(!validate_url(&"https://open.spotify.com/album/37i9dQZF1DXcBWIGoYBM5M".to_string()));
    assert!(!validate_url(&"see https://open.spotify.com/playlist/abc".to_string()));
    assert!(!validate_url(&"spotify.com/playlist/abc?\nq".to_string()));
}

#[test]
fn playlist_addresses_agree_with_the_pattern() {
    let pattern =
        Regex::new(r"^(https?://)?(www\.)?(open\.)?spotify\.com/playlist/[a-zA-Z0-9]+(\?.*)*$")
            .unwrap();
    for url in urls() {
        assert_eq!(validate_url(&url.to_string()), pattern.is_match(url), "address {:?}", url);
    }
}

#[test]
fn the_identifier_is_the_whole_run_of_letters_and_digits() {
    assert_eq!(get_id_from_url("https://open.spotify.com/playlist/37i9dQZF1DXcBWIGoYBM5M"), ID);
    assert_eq!(
        get_id_from_url("https://open.spotify.com/playlist/37i9dQZF1DXcBWIGoYBM5M?si=abc"),
        ID
    );
    assert_eq!(get_id_from_url("spotify.com/playlist/a"), "a");
    assert_eq!(get_id_from_url("www.spotify.com/playlist/abc?x?y"), "abc");
    assert_eq!(
        get_id_from_url("http://open.spotify.com/playlist/0123456789012345678901234567890"),
        "0123456789012345678901234567890"
    );
}

#[test]
fn no_identifier_in_an_address_that_is_not_accepted() {
    assert_eq!(find_id_in_url(""), None);
    assert_eq!(find_id_in_url("https://open.spotify.com/playlist/"), None);
    assert_eq!(find_id_in_url("https://open.spotify.com/album/37i9dQZF1DXcBWIGoYBM5M"), None);
    assert_eq!(find_id_in_url("see spotify.com/playlist/abc"), None);
    assert_eq!(find_id_in_url("spotify.com/playlist/abc/def"), None);
}

#[test]
fn identifiers_agree_with_the_pattern() {
    let accepted =
        Regex::new(r"^(https?://)?(www\.)?(open\.)?spotify\.com/playlist/[a-zA-Z0-9]+(\?.*)*$")
            .unwrap();
    let identifier = Regex::new(r"spotify\.com/playlist/([a-zA-Z0-9]+)").unwrap();
    for url in urls() {
        let expected = if accepted.is_match(url) {
            identifier.captures(url).map(|c| c[1].to_string())
        } else {
            None
        };
        assert_eq!(find_id_in_url(url), expected, "address {:?}", url);
    }
}

#[test]
fn an_identifier_comes_back_from_its_address() {
    let ids = [
        ID,
        "a",
        "Z9",
        "0000000000000000000000",
        "AbCdEfGhIjKlMnOpQrStUvWxYz0123456789",
    ];
    for id in ids {
        let playlist = Playlist::new(1, id.to_string(), "name".to_string(), 10, 0);
        let url = playlist.get_url();
        assert!(validate_url(&url));
        assert_eq!(get_id_from_url(&url), id);
        let named = Playlist::new(1, format!("spotify:playlist:{}", id), "name".to_string(), 10, 0);
        assert_eq!(get_id_from_url(&named.get_url()), id);
    }
}

#[test]
fn the_address_is_made_of_the_last_segment() {
    let playlist =
        Playlist::new(1, format!("spotify:playlist:{}", ID), "Top Hits".to_string(), 50, 1700000000);
    assert_eq!(playlist.get_url(), format!("https://open.spotify.com/playlist/{}", ID));
    assert_eq!(playlist.name, "Top Hits");
    assert_eq!(playlist.amount_songs, 50);
    assert_eq!(playlist.last_update, 1700000000);
    let song = Song::new(
        7,
        "spotify:track:4u7EnebtmKWzUH433cf5Qv".to_string(),
        "Title".to_string(),
        "Artist".to_string(),
        "preview".to_string(),
    );
    assert_eq!(song.get_url(), "https://open.spotify.com/track/4u7EnebtmKWzUH433cf5Qv");
    assert_eq!(song.id, 7);
    let copy = song.clone();
    assert_eq!(copy.song_name, "Title");
    assert_eq!(copy.artist_name, "Artist");
    assert_eq!(copy.preview_url, "preview");
}

#[test]
fn the_last_segment_follows_the_last_colon() {
    assert_eq!(last_segment_of("a:b:c"), "c");
    assert_eq!(last_segment_of("abc"), "abc");
    assert_eq!(last_segment_of("abc:"), "");
    assert_eq!(last_segment_of(":abc"), "abc");
    assert_eq!(last_segment_of(""), "");
    for text in ["a:b:c", "abc", "abc:", ":", "", "x::y"] {
        assert_eq!(last_segment_of(text), text.split(':').last().unwrap());
    }
}

fn track(id: Option<&str>, name: &str, artists: &[&str], preview: Option<&str>) -> PlaylistItem {
    PlaylistItem::Track(FetchedTrack {
        id: id.map(|s| s.to_string()),
        name: name.to_string(),
        artists: artists.iter().map(|s| s.to_string()).collect(),
        preview_url: preview.map(|s| s.to_string()),
    })
}

#[test]
fn artist_names_are_joined_with_comma_and_space() {
    assert_eq!(join_names(&Vec::new()), "");
    assert_eq!(join_names(&vec!["Queen".to_string()]), "Queen");
    assert_eq!(
        join_names(&vec!["Queen".to_string(), "David Bowie".to_string(), "X".to_string()]),
        "Queen, David Bowie, X"
    );
}

#[test]
fn only_tracks_with_a_preview_are_playable() {
    let song = playable_song(&track(Some("id1"), "Under Pressure", &["Queen", "David Bowie"], Some("p1")))
        .unwrap();
    assert_eq!(song.id, 0);
    assert_eq!(song.spotify_id, "id1");
    assert_eq!(song.song_name, "Under Pressure");
    assert_eq!(song.artist_name, "Queen, David Bowie");
    assert_eq!(song.preview_url, "p1");
    assert!(playable_song(&track(Some("id2"), "No Preview", &["A"], None)).is_none());
    assert!(playable_song(&track(None, "No Id", &["A"], Some("p"))).is_none());
    assert!(playable_song(&PlaylistItem::Episode).is_none());
    assert!(playable_song(&PlaylistItem::Missing).is_none());
}

#[test]
fn pages_are_taken_in_until_none_follows() {
    assert_eq!(PAGE_LIMIT, 100);
    let mut intake = TrackIntake::new();
    assert_eq!(intake.next_offset(), Some(0));
    intake.absorb(
        &vec![
            track(Some("a"), "A", &["x"], Some("pa")),
            PlaylistItem::Episode,
            track(Some("b"), "B", &["x"], None),
            track(Some("c"), "C", &["x", "y"], Some("pc")),
        ],
        true,
    );
    assert_eq!(intake.next_offset(), Some(100));
    intake.absorb(&vec![PlaylistItem::Missing, track(Some("d"), "D", &["z"], Some("pd"))], true);
    assert_eq!(intake.next_offset(), Some(200));
    intake.absorb(&Vec::new(), false);
    assert_eq!(intake.next_offset(), None);
    let songs = intake.into_songs();
    let names: Vec<&str> = songs.iter().map(|s| s.song_name.as_str()).collect();
    assert_eq!(names, vec!["A", "C", "D"]);
    assert_eq!(songs[1].artist_name, "x, y");
}

#[test]
fn player_numbers_survive_the_store() {
    for id in [0u64, 1, 42, i64::MAX as u64, i64::MAX as u64 + 1, u64::MAX] {
        assert_eq!(player_id_to_store(id), id as i64);
        assert_eq!(player_id_from_store(player_id_to_store(id)), id);
    }
    assert_eq!(player_id_from_store(-1), u64::MAX);
    assert_eq!(player_id_from_store(i64::MIN), 1u64 << 63);
}

#[test]
fn a_finished_game_gives_one_row_per_player() {
    let ranking = vec![
        ScoreEntry { player: Player::new(30, "c".to_string()), score: 2 },
        ScoreEntry { player: Player::new(u64::MAX, "m".to_string()), score: 1 },
        ScoreEntry { player: Player::new(10, "a".to_string()), score: 0 },
    ];
    let rows = scores_of_game(&ranking, 77);
    let plain: Vec<(i64, i64, i64)> = rows.iter().map(|r| (r.player_id, r.game_id, r.score)).collect();
    assert_eq!(plain, vec![(30, 77, 2), (-1, 77, 1), (10, 77, 0)]);
    assert!(scores_of_game(&Vec::new(), 1).is_empty());
}

#[test]
fn records_hold_what_they_are_given() {
    let game = Game::new(1, 2, 3, 1700000000);
    assert_eq!((game.id, game.playlist_id, game.game_length, game.started_at), (1, 2, 3, 1700000000));
    let score = Score::new(5, 6, 7);
    assert_eq!((score.player_id, score.game_id, score.score), (5, 6, 7));
    let legacy = song_quiz::structs::Song::new(
        "p".to_string(),
        "s".to_string(),
        "a".to_string(),
        "al".to_string(),
    );
    let copy = legacy.clone();
    assert_eq!(copy.preview_url, "p");
    assert_eq!(copy.song_name, "s");
    assert_eq!(copy.artist_name, "a");
    assert_eq!(copy.album_name, "al");
    let listed = song_quiz::structs::Playlist::new(
        1,
        "url".to_string(),
        "name".to_string(),
        9,
        "me".to_string(),
        10,
        20,
    );
    assert_eq!(listed.playlist_url, "url");
    assert_eq!(listed.playlist_name, "name");
    assert_eq!((listed.id, listed.amount_songs, listed.added_at, listed.last_update), (1, 9, 10, 20));
    assert_eq!(listed.added_by, "me");
    let _genre = Genre::new(1, "rock".to_string());
    let _result = GameResult::new(1, 2, 3, 4);
    let _ranking = Ranking::new(1, 2, 3);
}

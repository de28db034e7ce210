use song_quiz::database::song::Song;
use song_quiz::matcher::{
    is_artist_correct, is_match, is_title_correct, lowered_artist_matches, MATCH_THRESHOLD,
};

fn song_by(artist: &str) -> Song {
    Song::new(
        1,
        "spotify:track:abc".to_string(),
        "Title".to_string(),
        artist.to_string(),
        "https://p.example/preview.mp3".to_string(),
    )
}

#[test]
fn the_threshold_is_three() {
    assert_eq!(MATCH_THRESHOLD, 3);
}

#[test]
fn title_is_correct_within_the_distance() {
    assert!(is_title_correct("kitten", &"sitting".to_string(), 3));
    assert!(!is_title_correct("kitten", &"sitting".to_string(), 2));
    assert!(is_title_correct("", &"abc".to_string(), 3));
    assert!(!is_title_correct("", &"abcd".to_string(), 3));
    assert!(is_title_correct("same", &"same".to_string(), 0));
}

#[test]
fn title_distance_counts_characters_not_bytes() {
    assert!(is_title_correct("\u{e9}\u{e9}\u{e9}", &"eee".to_string(), 3));
    assert!(!is_title_correct("\u{e9}\u{e9}\u{e9}", &"eee".to_string(), 2));
}

#[test]
fn equal_canonical_forms_match_at_zero() {
    assert!(is_match("Hello World!", "hello   world", 0));
    assert!(is_match("Song - Remastered", "SONG (live)", 0));
    assert!(is_match("", "!!!", 0));
}

#[test]
fn a_match_stays_a_match_at_a_higher_threshold() {
    let pairs = [("kitten", "sitting"), ("abc", "abd"), ("", "xyz"), ("same", "same")];
    for (a, b) in pairs {
        for t in 0..6 {
            if is_match(a, b, t) {
                assert!(is_match(a, b, t + 1), "{:?} {:?} {}", a, b, t);
            }
        }
    }
}

#[test]
fn is_match_compares_canonical_forms() {
    assert!(is_match("Bohemian Rapsody", "Bohemian Rhapsody - Remastered 2011", 3));
    assert!(is_match("bohemian rapsody", "Bohemian Rhapsody", 1));
    assert!(!is_match("bohemian rapsody", "Bohemian Rhapsody", 0));
    assert!(!is_match("something else", "Bohemian Rhapsody", 3));
}

#[test]
fn artist_is_compared_in_lower_case_without_the_listed_punctuation() {
    assert!(is_artist_correct("ac/dc", &song_by("AC/DC"), 0));
    assert!(is_artist_correct("ACDC", &song_by("AC/DC"), 0));
    assert!(is_artist_correct("jay-z", &song_by("Jay-Z"), 0));
    assert!(is_artist_correct("Earth Wind and Fire", &song_by("Earth, Wind & Fire"), 4));
    assert!(!is_artist_correct("Earth Wind and Fire", &song_by("Earth, Wind & Fire"), 3));
    assert!(!is_artist_correct("Queen", &song_by("AC/DC"), 3));
}

#[test]
fn artist_keeps_white_space_and_all_other_characters() {
    assert!(!is_artist_correct("a b", &song_by("ab"), 0));
    assert!(is_artist_correct("a b", &song_by("ab"), 1));
    assert!(!is_artist_correct("jay", &song_by("Jay-Z"), 1));
    assert!(is_artist_correct("jay", &song_by("Jay-Z"), 2));
    assert!(!is_artist_correct("bjork", &song_by("Bj\u{f6}rk"), 0));
    assert!(is_artist_correct("BJ\u{d6}RK", &song_by("bj\u{f6}rk"), 0));
    assert!(!is_artist_correct("sigur ros (live)", &song_by("Sigur Ros"), 3));
}

#[test]
fn artist_is_put_in_lower_case_by_the_rules_of_unicode() {
    assert!(is_artist_correct("\u{212a}iss", &song_by("Kiss"), 0));
    assert!(is_artist_correct("kiss", &song_by("\u{212a}ISS"), 0));
    assert!(is_artist_correct("QUEEN", &song_by("queen"), 0));
}

#[test]
fn lowered_artist_names_are_stripped_and_compared_as_they_stand() {
    assert!(lowered_artist_matches("a/b", "ab", 0));
    assert!(lowered_artist_matches("a&b#c", "a:b*c", 0));
    assert!(!lowered_artist_matches("simon & garfunkel", "simon garfunkel", 0));
    assert!(lowered_artist_matches("simon & garfunkel", "simon garfunkel", 1));
    assert!(!lowered_artist_matches("abcd", "wxyz", 3));
    assert!(lowered_artist_matches("abcd", "wxyz", 4));
    assert!(!lowered_artist_matches("Queen", "queen", 0));
}

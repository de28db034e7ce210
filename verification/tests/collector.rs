use song_quiz::collector::{
    accepts_message, arrival_order, check_for_author, check_for_title, collect_winners,
    is_skip_message, run_race, ChatMessage, Race, RaceOutcome,
};
use song_quiz::database::song::Song;
use song_quiz::roster::{Player, Roster};

const BOT: u64 = 999;

fn player(id: u64) -> Player {
    Player::new(id, format!("player{}", id))
}

fn roster_of(ids: &[u64]) -> Roster {
    let mut roster = Roster::new();
    for id in ids {
        roster.join(player(*id));
    }
    roster
}

fn message(author: u64, content: &str) -> ChatMessage {
    ChatMessage::new(player(author), content.to_string())
}

fn track() -> Song {
    Song::new(
        0,
        "spotify:track:4u7EnebtmKWzUH433cf5Qv".to_string(),
        "Bohemian Rhapsody - Remastered 2011".to_string(),
        "Queen".to_string(),
        "https://p.example/preview.mp3".to_string(),
    )
}

fn winner_id(outcome: &RaceOutcome) -> Option<u64> {
    outcome.winner().map(|p| p.id)
}

#[test]
fn the_skip_signal_is_the_bots_exact_message() {
    assert!(is_skip_message(&message(BOT, "Skipping!"), BOT));
    assert!(!is_skip_message(&message(BOT, "Skipping"), BOT));
    assert!(!is_skip_message(&message(BOT, "skipping!"), BOT));
    assert!(!is_skip_message(&message(1, "Skipping!"), BOT));
}

#[test]
fn a_title_answer_of_a_member_is_accepted() {
    let roster = roster_of(&[1, 2]);
    assert!(accepts_message(Race::Title, &message(1, "bohemian rapsody"), &track(), BOT, &roster));
    assert!(!accepts_message(Race::Title, &message(1, "queen"), &track(), BOT, &roster));
    assert!(!accepts_message(Race::Title, &message(3, "bohemian rhapsody"), &track(), BOT, &roster));
}

#[test]
fn an_artist_answer_of_a_member_is_accepted() {
    let roster = roster_of(&[1, 2]);
    assert!(accepts_message(Race::Artist, &message(2, "QUEEN!"), &track(), BOT, &roster));
    assert!(accepts_message(Race::Artist, &message(2, "qeen"), &track(), BOT, &roster));
    assert!(!accepts_message(Race::Artist, &message(2, "bohemian rhapsody"), &track(), BOT, &roster));
    assert!(!accepts_message(Race::Artist, &message(3, "queen"), &track(), BOT, &roster));
}

#[test]
fn the_skip_signal_is_accepted_whoever_is_on_the_roster() {
    let empty = Roster::new();
    assert!(accepts_message(Race::Title, &message(BOT, "Skipping!"), &track(), BOT, &empty));
    assert!(accepts_message(Race::Artist, &message(BOT, "Skipping!"), &track(), BOT, &empty));
    assert!(!accepts_message(Race::Title, &message(BOT, "bohemian rhapsody"), &track(), BOT, &empty));
}

#[test]
fn the_first_of_many_right_answers_wins() {
    let roster = roster_of(&[1, 2, 3, 4]);
    let messages = vec![
        message(3, "Bohemian Rhapsody"),
        message(1, "bohemian rhapsody"),
        message(4, "bohemian rapsody"),
        message(2, "Bohemian Rhapsody!!"),
    ];
    let outcome = check_for_title(&messages, &track(), BOT, &roster);
    assert_eq!(winner_id(&outcome), Some(3));
    assert!(!outcome.is_skipped());
}

#[test]
fn wrong_answers_and_strangers_come_before_the_winner() {
    let roster = roster_of(&[1, 2]);
    let messages = vec![
        message(1, "no idea"),
        message(7, "bohemian rhapsody"),
        message(2, "bohemian rhapsody"),
        message(1, "bohemian rhapsody"),
    ];
    let outcome = run_race(Race::Title, &messages, &track(), BOT, &roster);
    assert_eq!(winner_id(&outcome), Some(2));
}

#[test]
fn title_and_artist_are_won_apart() {
    let roster = roster_of(&[1, 2]);
    let messages = vec![message(1, "bohemian rhapsody"), message(2, "queen")];
    let (title, artist) = collect_winners(&messages, &track(), BOT, &roster);
    assert_eq!(winner_id(&title), Some(1));
    assert_eq!(winner_id(&artist), Some(2));
}

#[test]
fn one_message_can_win_both_races() {
    let roster = roster_of(&[1]);
    let song = Song::new(
        0,
        "id".to_string(),
        "Queen".to_string(),
        "Queen".to_string(),
        "https://p.example/q.mp3".to_string(),
    );
    let messages = vec![message(1, "queen")];
    let (title, artist) = collect_winners(&messages, &song, BOT, &roster);
    assert_eq!(winner_id(&title), Some(1));
    assert_eq!(winner_id(&artist), Some(1));
}

#[test]
fn no_messages_no_match() {
    let roster = roster_of(&[1]);
    let (title, artist) = collect_winners(&Vec::new(), &track(), BOT, &roster);
    assert!(matches!(title, RaceOutcome::NoMatch));
    assert!(matches!(artist, RaceOutcome::NoMatch));
}

#[test]
fn an_empty_roster_has_no_winner() {
    let roster = Roster::new();
    let messages = vec![message(1, "bohemian rhapsody"), message(2, "queen")];
    let (title, artist) = collect_winners(&messages, &track(), BOT, &roster);
    assert!(matches!(title, RaceOutcome::NoMatch));
    assert!(matches!(artist, RaceOutcome::NoMatch));
}

fn titled(title: &str) -> Song {
    Song::new(0, "id".to_string(), title.to_string(), "Queen".to_string(), String::new())
}

#[test]
fn an_empty_title_is_never_won() {
    let roster = roster_of(&[1]);
    for guess in ["a long wrong guess", "abc", "a", "", "!!!"] {
        let outcome = check_for_title(&vec![message(1, guess)], &titled(""), BOT, &roster);
        assert!(matches!(outcome, RaceOutcome::NoMatch), "guess {:?}", guess);
    }
}

#[test]
fn a_title_without_letters_is_won_by_a_short_answer() {
    let roster = roster_of(&[1]);
    for title in ["?", "(Intro) - !", "\u{4e2d}\u{6587}"] {
        let won = check_for_title(&vec![message(1, "abc")], &titled(title), BOT, &roster);
        assert_eq!(winner_id(&won), Some(1), "title {:?}", title);
        let lost = check_for_title(&vec![message(1, "abcd")], &titled(title), BOT, &roster);
        assert!(matches!(lost, RaceOutcome::NoMatch), "title {:?}", title);
    }
}

#[test]
fn a_short_title_can_be_won() {
    let roster = roster_of(&[1]);
    let outcome = check_for_title(&vec![message(1, "abc")], &titled("a"), BOT, &roster);
    assert_eq!(winner_id(&outcome), Some(1));
}

#[test]
fn every_parenthesised_part_of_the_title_is_left_out() {
    let roster = roster_of(&[1]);
    let song = titled("Alpha (Live) Omega (Edit)");
    let outcome = check_for_title(&vec![message(1, "alpha omega")], &song, BOT, &roster);
    assert_eq!(winner_id(&outcome), Some(1));
}

#[test]
fn the_title_is_compared_as_the_guess_is() {
    let roster = roster_of(&[1]);
    for title in ["edit", "Meditation", "Credit", "Remix", "Song feat. Somebody"] {
        let outcome = check_for_title(&vec![message(1, title)], &titled(title), BOT, &roster);
        assert_eq!(winner_id(&outcome), Some(1), "title {:?}", title);
    }
}

fn contents(messages: &[ChatMessage]) -> Vec<&str> {
    messages.iter().map(|m| m.content.as_str()).collect()
}

#[test]
fn collected_messages_stand_in_the_order_of_arrival() {
    assert!(arrival_order(None, None).is_empty());
    assert_eq!(contents(&arrival_order(Some((5, message(1, "artist"))), None)), vec!["artist"]);
    assert_eq!(contents(&arrival_order(None, Some((5, message(1, "title"))))), vec!["title"]);
    assert_eq!(
        contents(&arrival_order(Some((5, message(1, "artist"))), Some((9, message(2, "title"))))),
        vec!["artist", "title"]
    );
    assert_eq!(
        contents(&arrival_order(Some((9, message(1, "artist"))), Some((5, message(2, "title"))))),
        vec!["title", "artist"]
    );
    assert_eq!(
        contents(&arrival_order(Some((7, message(1, "both"))), Some((7, message(1, "both"))))),
        vec!["both"]
    );
}

#[test]
fn the_skip_signal_ends_both_races() {
    let roster = roster_of(&[1]);
    let messages = vec![message(1, "dunno"), message(BOT, "Skipping!"), message(1, "queen")];
    let (title, artist) = collect_winners(&messages, &track(), BOT, &roster);
    assert!(title.is_skipped());
    assert!(artist.is_skipped());
    assert_eq!(winner_id(&title), None);
}

#[test]
fn an_answer_before_the_skip_signal_still_wins() {
    let roster = roster_of(&[1]);
    let messages = vec![message(1, "queen"), message(BOT, "Skipping!")];
    let title = check_for_title(&messages, &track(), BOT, &roster);
    let artist = check_for_author(&messages, &track(), BOT, &roster);
    assert!(title.is_skipped());
    assert_eq!(winner_id(&artist), Some(1));
}

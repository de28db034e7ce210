use song_quiz::database::song::Song;
use song_quiz::render::{
    countdown_text, decimal_of, join_timer, leaderboard_line_text, participants_text,
    push_decimal, push_mention, push_signed_decimal, ranking_text, reveal_text, round_text,
    skip_count_text,
};
use song_quiz::roster::{Player, Roster};
use song_quiz::scoreboard::ScoreEntry;

#[test]
fn numerals_are_decimal() {
    for n in [0u64, 1, 9, 10, 11, 99, 100, 101, 12345, 1_000_000, u64::MAX] {
        assert_eq!(decimal_of(n), n.to_string());
    }
    let mut text = "n=".to_string();
    push_decimal(&mut text, 42);
    assert_eq!(text, "n=42");
}

#[test]
fn signed_numerals_carry_a_minus() {
    for n in [0i32, 1, -1, 10, -10, 999, i32::MAX, i32::MIN] {
        let mut text = String::new();
        push_signed_decimal(&mut text, n);
        assert_eq!(text, n.to_string());
    }
}

#[test]
fn a_player_is_mentioned_by_number() {
    let mut text = String::new();
    push_mention(&mut text, 123456789);
    assert_eq!(text, "<@123456789>");
}

#[test]
fn participants_stand_on_lines_of_their_own() {
    let mut roster = Roster::new();
    assert_eq!(participants_text(&roster), "");
    roster.join(Player::new(5, "five".to_string()));
    assert_eq!(participants_text(&roster), "<@5>");
    roster.join(Player::new(77, "seventy-seven".to_string()));
    roster.join(Player::new(3, "three".to_string()));
    assert_eq!(participants_text(&roster), "<@5>\n<@77>\n<@3>");
}

#[test]
fn the_join_window_counts_down_to_zero() {
    assert_eq!(join_timer(10), vec![10, 9, 8, 7, 6, 5, 4, 3, 2, 1, 0]);
    assert_eq!(join_timer(0), vec![0]);
    assert_eq!(join_timer(255).len(), 256);
    assert_eq!(countdown_text(10), "You have 10 seconds to join!");
    assert_eq!(countdown_text(0), "You have 0 seconds to join!");
}

#[test]
fn rounds_and_skip_votes_are_announced() {
    assert_eq!(round_text(1), "Round 1");
    assert_eq!(round_text(12), "Round 12");
    assert_eq!(skip_count_text(4), "Skip count: 4");
}

#[test]
fn a_song_is_revealed_with_title_artist_and_address() {
    let song = Song::new(
        0,
        "spotify:track:4u7EnebtmKWzUH433cf5Qv".to_string(),
        "Bohemian Rhapsody".to_string(),
        "Queen".to_string(),
        "preview".to_string(),
    );
    assert_eq!(
        reveal_text(&song),
        "**Bohemian Rhapsody**\n**Queen**\nhttps://open.spotify.com/track/4u7EnebtmKWzUH433cf5Qv\n"
    );
}

#[test]
fn the_final_ranking_lists_every_player() {
    let ranking = vec![
        ScoreEntry { player: Player::new(30, "c".to_string()), score: 12 },
        ScoreEntry { player: Player::new(10, "a".to_string()), score: 0 },
    ];
    assert_eq!(
        ranking_text(&ranking),
        "**The Quiz is over! Here are the results:**\n**<@30>: 12**\n**<@10>: 0**\n"
    );
    assert_eq!(ranking_text(&Vec::new()), "**The Quiz is over! Here are the results:**\n");
}

#[test]
fn a_leaderboard_line_names_place_player_and_points() {
    assert_eq!(leaderboard_line_text(1, 42, 17), "**#1 - <@42> : 17**");
    assert_eq!(leaderboard_line_text(10, 7, -3), "**#10 - <@7> : -3**");
}

#[test]
fn the_leaderboard_counts_places_from_one() {
    let lines = song_quiz::render::leaderboard_texts(&vec![(42, 17), (7, 5), (9, -1)]);
    assert_eq!(lines, vec!["**#1 - <@42> : 17**", "**#2 - <@7> : 5**", "**#3 - <@9> : -1**"]);
    assert!(song_quiz::render::leaderboard_texts(&Vec::new()).is_empty());
}

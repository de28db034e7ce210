//! The texts that the quiz shows: the countdown of the join window, the
//! participants, the round announcements, the reveal of a song, and the
//! rankings.

use crate::database::song::{last_segment, track_url_prefix, Song, SongView};
use crate::roster::{PlayerView, Roster};
use crate::scoreboard::{entry_views, ScoreEntry, ScoreEntryView};
use vstd::prelude::*;

verus! {

/// The character of the decimal digit `d`.
pub open spec fn digit(d: nat) -> char {
    ((48 + d) as u8) as char
}

/// The decimal numeral of `n`, without leading zeros.
pub open spec fn decimal(n: nat) -> Seq<char>
    decreases n,
{
    if n < 10 {
        seq![digit(n)]
    } else {
        decimal(n / 10).push(digit(n % 10))
    }
}

/// The decimal numeral of `n`, with a minus sign where `n` is negative.
pub open spec fn signed_decimal(n: int) -> Seq<char> {
    if n < 0 {
        seq!['-'] + decimal((-n) as nat)
    } else {
        decimal(n as nat)
    }
}

/// How a player is mentioned in a message: `<@` and `>` around the decimal
/// numeral of their identifier.
pub open spec fn mention(id: u64) -> Seq<char> {
    "<@"@ + decimal(id as nat) + ">"@
}

/// The mentions of `players`, each but the first on a new line.
pub open spec fn participants(players: Seq<PlayerView>) -> Seq<char>
    decreases players.len(),
{
    if players.len() == 0 {
        Seq::empty()
    } else if players.len() == 1 {
        mention(players[0].id)
    } else {
        participants(players.drop_last()) + "\n"@ + mention(players.last().id)
    }
}

/// What the join window says while `seconds` seconds are left.
pub open spec fn countdown(seconds: u8) -> Seq<char> {
    "You have "@ + decimal(seconds as nat) + " seconds to join!"@
}

/// The announcement of round `number`.
pub open spec fn round_heading(number: nat) -> Seq<char> {
    "Round "@ + decimal(number)
}

/// The reply to a skip vote.
pub open spec fn skip_count(count: nat) -> Seq<char> {
    "Skip count: "@ + decimal(count)
}

/// `text` in bold, and a line break.
pub open spec fn bold_line(text: Seq<char>) -> Seq<char> {
    "**"@ + text + "**\n"@
}

/// The reveal of a song: its title and its artists in bold, then its web
/// address, each on a line of its own.
pub open spec fn song_reveal(track: SongView) -> Seq<char> {
    bold_line(track.song_name) + bold_line(track.artist_name) + track_url_prefix() + last_segment(
        track.spotify_id,
    ) + "\n"@
}

/// The lines of a ranking: for every entry, in order, the mention of the
/// player, a colon and the score, in bold.
pub open spec fn ranking_lines(ranking: Seq<ScoreEntryView>) -> Seq<char>
    decreases ranking.len(),
{
    if ranking.len() == 0 {
        Seq::empty()
    } else {
        ranking_lines(ranking.drop_last()) + bold_line(
            mention(ranking.last().player.id) + ": "@ + decimal(ranking.last().score as nat),
        )
    }
}

/// The announcement at the end of a quiz.
pub open spec fn final_ranking(ranking: Seq<ScoreEntryView>) -> Seq<char> {
    bold_line("The Quiz is over! Here are the results:"@) + ranking_lines(ranking)
}

/// One line of the leaderboard over all games: the place, the player and
/// their points, in bold.
pub open spec fn leaderboard_line(place: nat, player_id: u64, total: i32) -> Seq<char> {
    "**#"@ + decimal(place) + " - "@ + mention(player_id) + " : "@ + signed_decimal(total as int)
        + "**"@
}

/// The lines of the leaderboard over all games: one for every row of `rows`,
/// which hold a player and their points, with places counted from 1.
pub open spec fn leaderboard(rows: Seq<(u64, i32)>) -> Seq<Seq<char>> {
    Seq::new(rows.len(), |i: int| leaderboard_line((i + 1) as nat, rows[i].0, rows[i].1))
}

/// The seconds that the join window shows, one after the other, when it
/// opens with `from` seconds: `from`, then one less each time, down to 0.
pub open spec fn countdown_frames(from: u8) -> Seq<u8>
    decreases from,
{
    if from == 0 {
        seq![0u8]
    } else {
        seq![from] + countdown_frames((from - 1) as u8)
    }
}

/// A numeral has as many digits as it needs and no more: at least one, and
/// no leading zero but for the number 0.
pub proof fn lemma_decimal(n: nat)
    ensures
        decimal(n).len() >= 1,
        forall|i: int| 0 <= i < decimal(n).len() ==> '0' <= #[trigger] decimal(n)[i] <= '9',
        n > 0 ==> decimal(n)[0] != '0',
    decreases n,
{
    if n >= 10 {
        lemma_decimal(n / 10);
        let front = decimal(n / 10);
        assert forall|i: int| 0 <= i < decimal(n).len() implies '0' <= #[trigger] decimal(n)[i]
            <= '9' by {
            if i < front.len() {
                assert(decimal(n)[i] == front[i]);
            }
        }
        assert(decimal(n)[0] == front[0]);
    }
}

/// Puts the decimal numeral of `n` behind `out`.
pub fn push_decimal(out: &mut String, n: u64)
    ensures
        final(out)@ == old(out)@ + decimal(n as nat),
    decreases n,
{
    if n >= 10 {
        push_decimal(out, n / 10);
    }
    let d: u8 = (n % 10) as u8;
    out.push((48 + d) as char);
    assert(out@ =~= old(out)@ + decimal(n as nat));
}

/// Puts the decimal numeral of `n` behind `out`, with a minus sign where `n`
/// is negative.
pub fn push_signed_decimal(out: &mut String, n: i32)
    ensures
        final(out)@ == old(out)@ + signed_decimal(n as int),
{
    if n < 0 {
        out.push('-');
        let size: i64 = -(n as i64);
        push_decimal(out, size as u64);
        assert(out@ =~= old(out)@ + signed_decimal(n as int));
    } else {
        push_decimal(out, n as u64);
    }
}

/// Puts the mention of the player `id` behind `out`.
pub fn push_mention(out: &mut String, id: u64)
    ensures
        final(out)@ == old(out)@ + mention(id),
{
    out.append("<@");
    push_decimal(out, id);
    out.append(">");
    assert(out@ =~= old(out)@ + mention(id));
}

/// The decimal numeral of `n`.
pub fn decimal_of(n: u64) -> (text: String)
    ensures
        text@ == decimal(n as nat),
{
    let mut text = String::new();
    push_decimal(&mut text, n);
    assert(text@ =~= decimal(n as nat));
    text
}

/// The mentions of the members of `roster`, in roster order, each but the
/// first on a new line.
pub fn participants_text(roster: &Roster) -> (text: String)
    ensures
        text@ == participants(roster@),
{
    let mut text = String::new();
    let mut i: usize = 0;
    while i < roster.len()
        invariant
            i <= roster@.len(),
            text@ == participants(roster@.take(i as int)),
        decreases roster@.len() - i,
    {
        proof {
            let upto = roster@.take(i + 1);
            assert(upto.drop_last() =~= roster@.take(i as int));
            assert(upto.last() == roster@[i as int]);
            assert(upto[0] == roster@[0]);
        }
        let ghost before = text@;
        if i > 0 {
            text.append("\n");
        }
        push_mention(&mut text, roster.get(i).id);
        proof {
            if i == 0 {
                assert(text@ =~= mention(roster@[0].id));
            }
        }
        i += 1;
    }
    assert(roster@.take(roster@.len() as int) =~= roster@);
    text
}

/// What the join window says while `seconds` seconds are left.
pub fn countdown_text(seconds: u8) -> (text: String)
    ensures
        text@ == countdown(seconds),
{
    let mut text = String::from_str("You have ");
    push_decimal(&mut text, seconds as u64);
    text.append(" seconds to join!");
    text
}

/// The announcement of round `number`.
pub fn round_text(number: usize) -> (text: String)
    ensures
        text@ == round_heading(number as nat),
{
    let mut text = String::from_str("Round ");
    push_decimal(&mut text, number as u64);
    text
}

/// The reply to a skip vote that brought the count to `count`.
pub fn skip_count_text(count: usize) -> (text: String)
    ensures
        text@ == skip_count(count as nat),
{
    let mut text = String::from_str("Skip count: ");
    push_decimal(&mut text, count as u64);
    text
}

/// Puts `text` in bold and a line break behind `out`.
fn push_bold_line(out: &mut String, text: &str)
    ensures
        final(out)@ == old(out)@ + bold_line(text@),
{
    out.append("**");
    out.append(text);
    out.append("**\n");
    assert(out@ =~= old(out)@ + bold_line(text@));
}

/// The reveal of `track`.
pub fn reveal_text(track: &Song) -> (text: String)
    ensures
        text@ == song_reveal(track@),
{
    let mut text = String::new();
    push_bold_line(&mut text, track.song_name.as_str());
    push_bold_line(&mut text, track.artist_name.as_str());
    let url = track.get_url();
    text.append(url.as_str());
    text.append("\n");
    assert(text@ =~= song_reveal(track@));
    text
}

/// The announcement at the end of a quiz with the ranking `ranking`.
pub fn ranking_text(ranking: &Vec<ScoreEntry>) -> (text: String)
    ensures
        text@ == final_ranking(entry_views(ranking@)),
{
    let mut text = String::new();
    push_bold_line(&mut text, "The Quiz is over! Here are the results:");
    let ghost head = text@;
    assert(head =~= bold_line("The Quiz is over! Here are the results:"@));
    let mut i: usize = 0;
    while i < ranking.len()
        invariant
            i <= ranking.len(),
            text@ == head + ranking_lines(entry_views(ranking@).take(i as int)),
        decreases ranking.len() - i,
    {
        proof {
            let upto = entry_views(ranking@).take(i + 1);
            assert(upto.drop_last() =~= entry_views(ranking@).take(i as int));
            assert(upto.last() == ranking@[i as int]@);
        }
        let mut line = String::new();
        push_mention(&mut line, ranking[i].player.id);
        line.append(": ");
        push_decimal(&mut line, ranking[i].score);
        assert(line@ =~= mention(ranking@[i as int].player.id) + ": "@ + decimal(
            ranking@[i as int].score as nat,
        ));
        let ghost before = text@;
        push_bold_line(&mut text, line.as_str());
        assert(text@ =~= head + ranking_lines(entry_views(ranking@).take(i + 1)));
        i += 1;
    }
    assert(entry_views(ranking@).take(ranking@.len() as int) =~= entry_views(ranking@));
    text
}

/// The line of the leaderboard over all games for the player `player_id`,
/// who stands at `place` with `total` points.
pub fn leaderboard_line_text(place: usize, player_id: u64, total: i32) -> (text: String)
    ensures
        text@ == leaderboard_line(place as nat, player_id, total),
{
    let mut text = String::from_str("**#");
    push_decimal(&mut text, place as u64);
    text.append(" - ");
    push_mention(&mut text, player_id);
    text.append(" : ");
    push_signed_decimal(&mut text, total);
    text.append("**");
    assert(text@ =~= leaderboard_line(place as nat, player_id, total));
    text
}

/// The lines of the leaderboard over all games for `rows`, which hold a
/// player and their points each and stand in the order of their places.
pub fn leaderboard_texts(rows: &Vec<(u64, i32)>) -> (lines: Vec<String>)
    ensures
        lines@.len() == rows@.len(),
        forall|i: int| 0 <= i < rows@.len() ==> (#[trigger] lines@[i])@ == leaderboard(rows@)[i],
{
    let mut lines: Vec<String> = Vec::new();
    let mut i: usize = 0;
    while i < rows.len()
        invariant
            i <= rows.len(),
            lines@.len() == i,
            forall|k: int| 0 <= k < i ==> (#[trigger] lines@[k])@ == leaderboard(rows@)[k],
        decreases rows.len() - i,
    {
        let row = rows[i];
        lines.push(leaderboard_line_text(i + 1, row.0, row.1));
        i += 1;
    }
    lines
}

/// The seconds to show in a join window that opens with `from` seconds, one
/// for every tick.
pub fn join_timer(from: u8) -> (frames: Vec<u8>)
    ensures
        frames@ == countdown_frames(from),
{
    let mut frames: Vec<u8> = Vec::new();
    let mut count: u8 = from;
    while count > 0
        invariant
            count <= from,
            frames@ + countdown_frames(count) == countdown_frames(from),
        decreases count,
    {
        frames.push(count);
        assert(frames@ + countdown_frames((count - 1) as u8) =~= countdown_frames(from)) by {
            assert(countdown_frames(count) =~= seq![count] + countdown_frames((count - 1) as u8));
        }
        count -= 1;
    }
    frames.push(0);
    assert(frames@ =~= countdown_frames(from));
    frames
}

} // verus!

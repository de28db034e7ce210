//! Finished games and their scores as the store keeps them.

use crate::scoreboard::{entry_views, ScoreEntry, ScoreEntryView};
use vstd::prelude::*;

verus! {

/// One game: the store's row number, the playlist it played, the number of
/// its rounds, and when it began, in seconds since 1970-01-01 00:00:00 UTC.
#[derive(Debug)]
pub struct Game {
    pub id: i64,
    pub playlist_id: i64,
    pub game_length: i64,
    pub started_at: i64,
}

impl Game {
    pub fn new(id: i64, playlist_id: i64, game_length: i64, started_at: i64) -> (game: Self)
        ensures
            game.id == id,
            game.playlist_id == playlist_id,
            game.game_length == game_length,
            game.started_at == started_at,
    {
        Self { id, playlist_id, game_length, started_at }
    }
}

/// The points of one player in one game.
#[derive(Debug)]
pub struct Score {
    pub player_id: i64,
    pub game_id: i64,
    pub score: i64,
}

impl Score {
    pub fn new(player_id: i64, game_id: i64, score: i64) -> (score_row: Self)
        ensures
            score_row.player_id == player_id,
            score_row.game_id == game_id,
            score_row.score == score,
    {
        Self { player_id, game_id, score }
    }
}

/// The number that the store keeps for the player `id`: the same 64 bits,
/// read as a signed number.
pub open spec fn stored_player_id(id: u64) -> i64 {
    if id <= i64::MAX {
        id as i64
    } else {
        (id - 0x1_0000_0000_0000_0000) as i64
    }
}

/// The player whose number in the store is `stored`.
pub open spec fn player_id_of(stored: i64) -> u64 {
    if stored >= 0 {
        stored as u64
    } else {
        (stored + 0x1_0000_0000_0000_0000) as u64
    }
}

/// The rows that record `entries` for the game `game_id`, in order.
pub open spec fn score_rows(entries: Seq<ScoreEntryView>, game_id: i64) -> Seq<Score> {
    entries.map_values(
        |e: ScoreEntryView|
            Score { player_id: stored_player_id(e.player.id), game_id, score: e.score as i64 },
    )
}

/// A player's number survives the store.
pub proof fn lemma_player_id_round_trip(id: u64)
    ensures
        player_id_of(stored_player_id(id)) == id,
{
}

/// The number under which the store keeps the player `id`.
pub fn player_id_to_store(id: u64) -> (stored: i64)
    ensures
        stored == stored_player_id(id),
{
    if id <= 0x7fff_ffff_ffff_ffff {
        id as i64
    } else {
        let low: u64 = id - 0x8000_0000_0000_0000;
        (low as i64) + i64::MIN
    }
}

/// The player that the store keeps under `stored`.
pub fn player_id_from_store(stored: i64) -> (id: u64)
    ensures
        id == player_id_of(stored),
{
    if stored >= 0 {
        stored as u64
    } else {
        let low: i64 = stored - i64::MIN;
        (low as u64) + 0x8000_0000_0000_0000
    }
}

/// The rows to store for a finished game: one for every entry of `ranking`,
/// in its order. Every score must fit the 64 signed bits in which the store
/// keeps it.
pub fn scores_of_game(ranking: &Vec<ScoreEntry>, game_id: i64) -> (rows: Vec<Score>)
    requires
        forall|k: int| 0 <= k < ranking@.len() ==> (#[trigger] ranking@[k]).score <= i64::MAX,
    ensures
        rows@ == score_rows(entry_views(ranking@), game_id),
{
    let mut rows: Vec<Score> = Vec::new();
    let mut i: usize = 0;
    while i < ranking.len()
        invariant
            i <= ranking.len(),
            forall|k: int| 0 <= k < ranking@.len() ==> (#[trigger] ranking@[k]).score <= i64::MAX,
            rows@ == score_rows(entry_views(ranking@).take(i as int), game_id),
        decreases ranking.len() - i,
    {
        let entry = &ranking[i];
        let ghost before = rows@;
        rows.push(Score::new(player_id_to_store(entry.player.id), game_id, entry.score as i64));
        proof {
            let after = score_rows(entry_views(ranking@).take(i + 1), game_id);
            assert(rows@.len() == after.len());
            assert forall|k: int| 0 <= k < after.len() implies rows@[k] == after[k] by {
                if k < i {
                    assert(rows@[k] == before[k]);
                    assert(before[k] == score_rows(entry_views(ranking@).take(i as int), game_id)[k]);
                }
            }
            assert(rows@ =~= after);
        }
        i += 1;
    }
    assert(entry_views(ranking@).take(ranking@.len() as int) =~= entry_views(ranking@));
    rows
}

} // verus!

//! The scores of one game: one entry for every player of the frozen roster,
//! in roster order, and the ranking that is announced at the end.

use crate::roster::{distinct_ids, has_id, Player, PlayerView, Roster};
use vstd::prelude::*;

verus! {

/// A player and the points they have won so far.
pub struct ScoreEntry {
    pub player: Player,
    pub score: u64,
}

/// What a [`ScoreEntry`] is in contracts.
pub struct ScoreEntryView {
    pub player: PlayerView,
    pub score: u64,
}

impl View for ScoreEntry {
    type V = ScoreEntryView;

    open spec fn view(&self) -> ScoreEntryView {
        ScoreEntryView { player: self.player@, score: self.score }
    }
}

impl Clone for ScoreEntry {
    fn clone(&self) -> (copy: Self)
        ensures
            copy == *self,
    {
        ScoreEntry { player: self.player.clone(), score: self.score }
    }
}

/// The views of `entries`, in order.
pub open spec fn entry_views(entries: Seq<ScoreEntry>) -> Seq<ScoreEntryView> {
    entries.map_values(|e: ScoreEntry| e@)
}

/// The players of `entries`, in order.
pub open spec fn players_of(entries: Seq<ScoreEntryView>) -> Seq<PlayerView> {
    entries.map_values(|e: ScoreEntryView| e.player)
}

/// One entry with score 0 for every member of `roster`, in roster order.
pub open spec fn zero_scores(roster: Seq<PlayerView>) -> Seq<ScoreEntryView> {
    roster.map_values(|p: PlayerView| ScoreEntryView { player: p, score: 0 })
}

/// `entries` with one point more for the player `id`; all else unchanged.
pub open spec fn awarded(entries: Seq<ScoreEntryView>, id: u64) -> Seq<ScoreEntryView> {
    entries.map_values(
        |e: ScoreEntryView|
            if e.player.id == id {
                ScoreEntryView { player: e.player, score: (e.score + 1) as u64 }
            } else {
                e
            },
    )
}


/// The index in `ranked` before which an entry with `score` is put: that of
/// the first entry with a lower score, or the length where there is none.
pub open spec fn rank_position(ranked: Seq<ScoreEntryView>, score: u64) -> int
    decreases ranked.len(),
{
    if ranked.len() == 0 {
        0
    } else if ranked[0].score < score {
        0
    } else {
        1 + rank_position(ranked.drop_first(), score)
    }
}

/// The ranking of `entries`: highest score first, and entries with equal
/// scores in the order in which they stand in `entries`.
pub open spec fn ranked(entries: Seq<ScoreEntryView>) -> Seq<ScoreEntryView>
    decreases entries.len(),
{
    if entries.len() == 0 {
        Seq::empty()
    } else {
        let front = ranked(entries.drop_last());
        front.insert(rank_position(front, entries.last().score), entries.last())
    }
}

/// No entry of `ranking` is followed by one with a higher score.
pub open spec fn descending(ranking: Seq<ScoreEntryView>) -> bool {
    forall|a: int, b: int|
        0 <= a < b < ranking.len() ==> (#[trigger] ranking[a]).score >= (#[trigger] ranking[b]).score
}

/// Every entry of `before` that stands in front of another with the same
/// score also does so in `after`: `order[i]` is the index in `after` of the
/// entry at `i` in `before`.
pub open spec fn keeps_ties(
    before: Seq<ScoreEntryView>,
    after: Seq<ScoreEntryView>,
    order: Seq<int>,
) -> bool {
    &&& order.len() == before.len()
    &&& after.len() == before.len()
    &&& forall|i: int|
        0 <= i < before.len() ==> 0 <= #[trigger] order[i] < after.len() && after[order[i]]
            == before[i]
    &&& forall|i: int, j: int|
        0 <= i < j < before.len() ==> #[trigger] order[i] != #[trigger] order[j]
    &&& forall|i: int, j: int|
        0 <= i < j < before.len() && before[i].score == before[j].score ==> #[trigger] order[i]
            < #[trigger] order[j]
}

proof fn lemma_rank_position(ranking: Seq<ScoreEntryView>, score: u64)
    requires
        descending(ranking),
    ensures
        0 <= rank_position(ranking, score) <= ranking.len(),
        forall|k: int| 0 <= k < rank_position(ranking, score) ==> ranking[k].score >= score,
        forall|k: int| rank_position(ranking, score) <= k < ranking.len() ==> ranking[k].score < score,
    decreases ranking.len(),
{
    if ranking.len() > 0 {
        let rest = ranking.drop_first();
        assert forall|a: int, b: int| 0 <= a < b < rest.len() implies (#[trigger] rest[a]).score
            >= (#[trigger] rest[b]).score by {
            assert(rest[a] == ranking[a + 1]);
            assert(rest[b] == ranking[b + 1]);
        }
        if ranking[0].score < score {
            assert forall|k: int| 0 <= k < ranking.len() implies ranking[k].score < score by {
                if k > 0 {
                    assert(ranking[0].score >= ranking[k].score);
                }
            }
        } else {
            lemma_rank_position(rest, score);
            let p = rank_position(rest, score);
            assert forall|k: int| 0 <= k < p + 1 implies ranking[k].score >= score by {
                if k > 0 {
                    assert(rest[k - 1] == ranking[k]);
                }
            }
            assert forall|k: int| p + 1 <= k < ranking.len() implies ranking[k].score < score by {
                assert(rest[k - 1] == ranking[k]);
            }
        }
    }
}

/// The ranking holds every entry exactly once, its scores never rise from one
/// place to the next, and entries with equal scores keep the order that they
/// have on the board.
pub proof fn lemma_ranked(entries: Seq<ScoreEntryView>) -> (order: Seq<int>)
    ensures
        ranked(entries).len() == entries.len(),
        ranked(entries).to_multiset() == entries.to_multiset(),
        descending(ranked(entries)),
        keeps_ties(entries, ranked(entries), order),
    decreases entries.len(),
{
    broadcast use vstd::seq_lib::group_to_multiset_ensures;

    if entries.len() == 0 {
        assert(entries =~= Seq::<ScoreEntryView>::empty());
        Seq::empty()
    } else {
        let front_entries = entries.drop_last();
        let last = entries.last();
        let front_order = lemma_ranked(front_entries);
        let front = ranked(front_entries);
        lemma_rank_position(front, last.score);
        let p = rank_position(front, last.score);
        let result = front.insert(p, last);
        assert(result == ranked(entries));
        assert(front_entries.push(last) =~= entries);
        assert(result.to_multiset() =~= entries.to_multiset());
        assert forall|a: int, b: int| 0 <= a < b < result.len() implies (#[trigger] result[a]).score
            >= (#[trigger] result[b]).score by {
            if a < p && b > p {
                assert(result[a] == front[a]);
                assert(result[b] == front[b - 1]);
            } else if a < p && b < p {
                assert(front[a].score >= front[b].score);
            } else if a > p {
                assert(front[a - 1].score >= front[b - 1].score);
            }
        }
        let order = Seq::new(
            entries.len(),
            |i: int|
                if i == entries.len() - 1 {
                    p
                } else if front_order[i] < p {
                    front_order[i]
                } else {
                    front_order[i] + 1
                },
        );
        assert forall|i: int| 0 <= i < entries.len() implies 0 <= #[trigger] order[i] < result.len()
            && result[order[i]] == entries[i] by {
            if i < entries.len() - 1 {
                assert(front_entries[i] == entries[i]);
                assert(front[front_order[i]] == front_entries[i]);
            }
        }
        assert forall|i: int, j: int| 0 <= i < j < entries.len() implies #[trigger] order[i]
            != #[trigger] order[j] by {
            if j < entries.len() - 1 {
                assert(front_order[i] != front_order[j]);
            }
        }
        assert forall|i: int, j: int|
            0 <= i < j < entries.len() && entries[i].score == entries[j].score implies #[trigger] order[i]
            < #[trigger] order[j] by {
            assert(front_entries[i] == entries[i]);
            if j < entries.len() - 1 {
                assert(front_entries[j] == entries[j]);
                assert(front_order[i] < front_order[j]);
            } else {
                assert(front[front_order[i]] == front_entries[i]);
                if front_order[i] >= p {
                    assert(front[front_order[i]].score < last.score);
                }
            }
        }
        order
    }
}

/// The scores of a game.
pub struct ScoreBoard {
    entries: Vec<ScoreEntry>,
}

impl View for ScoreBoard {
    type V = Seq<ScoreEntryView>;

    closed spec fn view(&self) -> Seq<ScoreEntryView> {
        entry_views(self.entries@)
    }
}

impl ScoreBoard {
    /// No player has two entries.
    pub open spec fn wf(&self) -> bool {
        distinct_ids(players_of(self@))
    }

    /// The player `id` has an entry.
    pub open spec fn has(&self, id: u64) -> bool {
        has_id(players_of(self@), id)
    }

    /// A board without entries.
    pub fn new() -> (board: Self)
        ensures
            board.wf(),
            board@ == Seq::<ScoreEntryView>::empty(),
    {
        let board = ScoreBoard { entries: Vec::new() };
        assert(board@ =~= Seq::<ScoreEntryView>::empty());
        board
    }

    /// The board at the start of a game: every member of `roster` with score
    /// 0, and nobody else.
    pub fn from_roster(roster: &Roster) -> (board: Self)
        requires
            roster.wf(),
        ensures
            board.wf(),
            board@ == zero_scores(roster@),
            players_of(board@) == roster@,
    {
        let mut entries: Vec<ScoreEntry> = Vec::new();
        let mut i: usize = 0;
        while i < roster.len()
            invariant
                i <= roster@.len(),
                entries@.len() == i,
                entry_views(entries@) == zero_scores(roster@.take(i as int)),
            decreases roster@.len() - i,
        {
            let player = roster.get(i).clone();
            let ghost before = entry_views(entries@);
            entries.push(ScoreEntry { player, score: 0 });
            proof {
                let after = zero_scores(roster@.take(i + 1));
                assert forall|k: int| 0 <= k < i + 1 implies #[trigger] entry_views(entries@)[k]
                    == after[k] by {
                    if k < i {
                        assert(entry_views(entries@)[k] == before[k]);
                        assert(before[k] == zero_scores(roster@.take(i as int))[k]);
                    }
                }
                assert(entry_views(entries@) =~= after);
            }
            i += 1;
        }
        assert(roster@.take(roster@.len() as int) =~= roster@);
        let board = ScoreBoard { entries };
        assert(players_of(board@) =~= roster@);
        board
    }

    /// The number of entries.
    pub fn len(&self) -> (n: usize)
        ensures
            n == self@.len(),
    {
        self.entries.len()
    }

    /// The entry at `index`, counted in roster order.
    pub fn get(&self, index: usize) -> (entry: &ScoreEntry)
        requires
            index < self@.len(),
        ensures
            entry@ == self@[index as int],
    {
        &self.entries[index]
    }

    /// The index of the entry of the player `id`, if they have one.
    pub fn position(&self, id: u64) -> (found: Option<usize>)
        ensures
            match found {
                Some(i) => i < self@.len() && self@[i as int].player.id == id,
                None => !self.has(id),
            },
    {
        let mut i: usize = 0;
        while i < self.entries.len()
            invariant
                i <= self.entries.len(),
                forall|k: int| 0 <= k < i ==> (#[trigger] self@[k]).player.id != id,
            decreases self.entries.len() - i,
        {
            if self.entries[i].player.id == id {
                return Some(i);
            }
            i += 1;
        }
        assert forall|k: int| 0 <= k < players_of(self@).len() implies (#[trigger] players_of(
            self@,
        )[k]).id != id by {
            assert(self@[k].player.id != id);
        }
        None
    }

    /// The score of the player `id`, if they have an entry.
    pub fn score(&self, id: u64) -> (score: Option<u64>)
        ensures
            match score {
                Some(points) => exists|i: int|
                    0 <= i < self@.len() && (#[trigger] self@[i]).player.id == id && self@[i].score
                        == points,
                None => !self.has(id),
            },
    {
        match self.position(id) {
            Some(i) => Some(self.entries[i].score),
            None => None,
        }
    }

    /// Gives the player `id` one point.
    pub fn award(&mut self, id: u64)
        requires
            old(self).wf(),
            old(self).has(id),
            forall|i: int| 0 <= i < old(self)@.len() ==> (#[trigger] old(self)@[i]).score < u64::MAX,
        ensures
            final(self).wf(),
            final(self)@ == awarded(old(self)@, id),
            players_of(final(self)@) == players_of(old(self)@),
    {
        match self.position(id) {
            Some(i) => {
                let entry = &self.entries[i];
                assert(entry@ == self@[i as int]);
                let raised = ScoreEntry { player: entry.player.clone(), score: entry.score + 1 };
                self.entries.set(i, raised);
                proof {
                    let old_players = players_of(old(self)@);
                    assert forall|k: int| 0 <= k < old(self)@.len() implies #[trigger] self@[k]
                        == awarded(old(self)@, id)[k] by {
                        if k != i {
                            assert(old_players[k].id != old_players[i as int].id);
                        }
                    }
                    assert(self@ =~= awarded(old(self)@, id));
                    assert(players_of(self@) =~= old_players);
                }
            },
            None => {
                proof {
                    assert(false);
                }
            },
        }
    }

    /// The ranking: every entry once, highest score first, and entries with
    /// equal scores in roster order.
    pub fn ranking(&self) -> (ranking: Vec<ScoreEntry>)
        ensures
            entry_views(ranking@) == ranked(self@),
    {
        let mut ranking: Vec<ScoreEntry> = Vec::new();
        let mut i: usize = 0;
        while i < self.entries.len()
            invariant
                i <= self.entries.len(),
                entry_views(ranking@) == ranked(self@.take(i as int)),
            decreases self.entries.len() - i,
        {
            let entry = self.entries[i].clone();
            let ghost before = entry_views(ranking@);
            assert(before.skip(0) =~= before);
            let mut at: usize = 0;
            while at < ranking.len() && ranking[at].score >= entry.score
                invariant
                    at <= ranking.len(),
                    before == entry_views(ranking@),
                    rank_position(before, entry.score) == at + rank_position(
                        before.skip(at as int),
                        entry.score,
                    ),
                decreases ranking.len() - at,
            {
                proof {
                    assert(before.skip(at as int)[0] == ranking@[at as int]@);
                    assert(before.skip(at as int).drop_first() =~= before.skip(at + 1));
                }
                at += 1;
            }
            proof {
                if at < ranking.len() {
                    assert(before.skip(at as int)[0] == ranking@[at as int]@);
                }
                assert(self@.take(i + 1).drop_last() =~= self@.take(i as int));
                assert(self@.take(i + 1).last() == entry@);
            }
            ranking.insert(at, entry);
            assert(entry_views(ranking@) =~= before.insert(at as int, entry@));
            i += 1;
        }
        assert(self@.take(self@.len() as int) =~= self@);
        ranking
    }
}

} // verus!

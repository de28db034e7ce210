//! Votes to skip the song of the current round.
//!
//! Each player counts once per round, however often they vote. The round is
//! skipped once the voters are at least 32 in 100 of the participants.

use std::collections::HashSet;
use vstd::prelude::*;

verus! {

/// `count` voters among `total` participants are a quorum: `count / total` is
/// at least 32/100. Among no participants, any vote is a quorum and no vote
/// is none.
pub open spec fn quorum(count: nat, total: nat) -> bool {
    if total == 0 {
        count > 0
    } else {
        25 * count >= 8 * total
    }
}

/// With more votes, or among fewer participants, a quorum stays a quorum.
pub proof fn lemma_quorum_monotonic(count: nat, more: nat, total: nat, fewer: nat)
    requires
        quorum(count, total),
        count <= more,
        fewer <= total,
    ensures
        quorum(more, fewer),
{
}

/// The players that have voted to skip the current round.
pub struct SkipVoteTracker {
    voters: HashSet<u64>,
}

impl View for SkipVoteTracker {
    type V = Set<u64>;

    closed spec fn view(&self) -> Set<u64> {
        self.voters@
    }
}

impl SkipVoteTracker {
    /// The voters are finitely many.
    pub closed spec fn wf(&self) -> bool {
        self.voters@.finite()
    }

    /// A tracker without votes.
    pub fn new() -> (tracker: Self)
        ensures
            tracker.wf(),
            tracker@ == Set::<u64>::empty(),
    {
        SkipVoteTracker { voters: HashSet::new() }
    }

    /// The number of players that have voted.
    pub fn count(&self) -> (count: usize)
        requires
            self.wf(),
        ensures
            self@.finite(),
            count == self@.len(),
    {
        broadcast use vstd::std_specs::hash::group_hash_axioms;

        self.voters.len()
    }

    /// Whether `player_id` has voted.
    pub fn has_voted(&self, player_id: u64) -> (voted: bool)
        ensures
            voted == self@.contains(player_id),
    {
        broadcast use vstd::std_specs::hash::group_hash_axioms;

        self.voters.contains(&player_id)
    }

    /// Records the vote of `player_id` and gives the number of players that
    /// have voted since the last reset. A second vote of the same player
    /// changes nothing.
    pub fn record_vote(&mut self, player_id: u64) -> (count: usize)
        requires
            old(self).wf(),
        ensures
            final(self).wf(),
            final(self)@ == old(self)@.insert(player_id),
            final(self)@.finite(),
            count == final(self)@.len(),
    {
        broadcast use vstd::std_specs::hash::group_hash_axioms;

        self.voters.insert(player_id);
        self.voters.len()
    }

    /// Forgets all votes: to be called when a round begins.
    pub fn reset(&mut self)
        ensures
            final(self).wf(),
            final(self)@ == Set::<u64>::empty(),
    {
        self.voters.clear();
    }

    /// Whether the players that have voted are a quorum among
    /// `total_participants`.
    pub fn quorum_reached(&self, total_participants: usize) -> (reached: bool)
        requires
            self.wf(),
        ensures
            reached == quorum(self@.len(), total_participants as nat),
    {
        let count = self.count();
        if total_participants == 0 {
            count > 0
        } else {
            (count as u128) * 25 >= (total_participants as u128) * 8
        }
    }
}

} // verus!

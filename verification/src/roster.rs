//! The players of one game: who they are and who has joined.
//!
//! A roster keeps its members in the order in which they joined and holds no
//! identifier twice. Two players are the same player when their identifiers
//! are equal, whatever their display names say.

use vstd::prelude::*;

verus! {

/// A user of the chat platform: an opaque identifier and a display name.
pub struct Player {
    pub id: u64,
    pub name: String,
}

/// What a [`Player`] is in contracts.
pub struct PlayerView {
    pub id: u64,
    pub name: Seq<char>,
}

impl View for Player {
    type V = PlayerView;

    open spec fn view(&self) -> PlayerView {
        PlayerView { id: self.id, name: self.name@ }
    }
}

impl Clone for Player {
    fn clone(&self) -> (copy: Self)
        ensures
            copy == *self,
    {
        Player { id: self.id, name: self.name.clone() }
    }
}

impl Player {
    pub fn new(id: u64, name: String) -> (player: Self)
        ensures
            player.id == id,
            player.name == name,
    {
        Player { id, name }
    }
}

/// The views of `players`, in order.
pub open spec fn player_views(players: Seq<Player>) -> Seq<PlayerView> {
    players.map_values(|p: Player| p@)
}

/// Some member of `members` has the identifier `id`.
pub open spec fn has_id(members: Seq<PlayerView>, id: u64) -> bool {
    exists|i: int| 0 <= i < members.len() && (#[trigger] members[i]).id == id
}

/// No identifier occurs twice in `members`.
pub open spec fn distinct_ids(members: Seq<PlayerView>) -> bool {
    forall|i: int, j: int|
        0 <= i < j < members.len() ==> (#[trigger] members[i]).id != (#[trigger] members[j]).id
}

/// `members` after `player` has joined: unchanged where a member has the
/// identifier of `player` already, else with `player` at the end.
pub open spec fn with_player(members: Seq<PlayerView>, player: PlayerView) -> Seq<PlayerView> {
    if has_id(members, player.id) {
        members
    } else {
        members.push(player)
    }
}

/// The members of `members` whose identifier is not `id`, in order.
pub open spec fn without_id(members: Seq<PlayerView>, id: u64) -> Seq<PlayerView>
    decreases members.len(),
{
    if members.len() == 0 {
        Seq::empty()
    } else if members.last().id == id {
        without_id(members.drop_last(), id)
    } else {
        without_id(members.drop_last(), id).push(members.last())
    }
}

/// Taking out an identifier that no member has changes nothing.
pub proof fn lemma_without_absent_id(members: Seq<PlayerView>, id: u64)
    requires
        !has_id(members, id),
    ensures
        without_id(members, id) == members,
    decreases members.len(),
{
    if members.len() > 0 {
        let front = members.drop_last();
        assert(members.last() == members[members.len() - 1]);
        assert forall|i: int| 0 <= i < front.len() implies (#[trigger] front[i]).id != id by {
            assert(front[i] == members[i]);
        }
        lemma_without_absent_id(front, id);
        assert(front.push(members.last()) =~= members);
    } else {
        assert(members =~= Seq::<PlayerView>::empty());
    }
}

/// Where identifiers are distinct, taking one out removes exactly the member
/// that has it.
pub proof fn lemma_without_present_id(members: Seq<PlayerView>, at: int)
    requires
        distinct_ids(members),
        0 <= at < members.len(),
    ensures
        without_id(members, members[at].id) == members.remove(at),
    decreases members.len(),
{
    let id = members[at].id;
    let front = members.drop_last();
    if at == members.len() - 1 {
        assert forall|i: int| 0 <= i < front.len() implies (#[trigger] front[i]).id != id by {
            assert(front[i] == members[i]);
        }
        lemma_without_absent_id(front, id);
        assert(members.remove(at) =~= front);
    } else {
        assert(members.last() == members[members.len() - 1]);
        assert(front[at] == members[at]);
        assert(distinct_ids(front)) by {
            assert forall|i: int, j: int| 0 <= i < j < front.len() implies (#[trigger] front[i]).id
                != (#[trigger] front[j]).id by {
                assert(front[i] == members[i]);
                assert(front[j] == members[j]);
            }
        }
        lemma_without_present_id(front, at);
        assert(front.remove(at).push(members.last()) =~= members.remove(at));
    }
}

/// The set of players that have joined a game, in the order of their joining.
pub struct Roster {
    players: Vec<Player>,
}

impl View for Roster {
    type V = Seq<PlayerView>;

    closed spec fn view(&self) -> Seq<PlayerView> {
        player_views(self.players@)
    }
}

impl Roster {
    /// No identifier occurs twice.
    pub open spec fn wf(&self) -> bool {
        distinct_ids(self@)
    }

    /// The roster has a member with the identifier `id`.
    pub open spec fn has(&self, id: u64) -> bool {
        has_id(self@, id)
    }

    /// A roster without members.
    pub fn new() -> (roster: Self)
        ensures
            roster.wf(),
            roster@ == Seq::<PlayerView>::empty(),
    {
        let roster = Roster { players: Vec::new() };
        assert(roster@ =~= Seq::<PlayerView>::empty());
        roster
    }

    /// The number of members.
    pub fn len(&self) -> (n: usize)
        ensures
            n == self@.len(),
    {
        self.players.len()
    }

    pub fn is_empty(&self) -> (empty: bool)
        ensures
            empty == (self@.len() == 0),
    {
        self.players.len() == 0
    }

    /// The member at `index`, counted in the order of joining.
    pub fn get(&self, index: usize) -> (player: &Player)
        requires
            index < self@.len(),
        ensures
            player@ == self@[index as int],
    {
        &self.players[index]
    }

    /// The index of the member with the identifier `id`, if there is one.
    pub fn position(&self, id: u64) -> (found: Option<usize>)
        ensures
            match found {
                Some(i) => i < self@.len() && self@[i as int].id == id,
                None => !self.has(id),
            },
    {
        let mut i: usize = 0;
        while i < self.players.len()
            invariant
                i <= self.players.len(),
                forall|k: int| 0 <= k < i ==> (#[trigger] self@[k]).id != id,
            decreases self.players.len() - i,
        {
            if self.players[i].id == id {
                return Some(i);
            }
            i += 1;
        }
        None
    }

    /// Whether a player with the identifier `id` has joined.
    pub fn contains(&self, id: u64) -> (found: bool)
        ensures
            found == self.has(id),
    {
        self.position(id).is_some()
    }

    /// Adds `player` unless a member with the same identifier is there
    /// already; then nothing changes.
    pub fn join(&mut self, player: Player)
        requires
            old(self).wf(),
        ensures
            final(self).wf(),
            final(self)@ == with_player(old(self)@, player@),
    {
        if self.position(player.id).is_none() {
            self.players.push(player);
            assert(self@ =~= old(self)@.push(player@));
        }
    }

    /// Removes the member with the identifier of `player`, if there is one.
    pub fn leave(&mut self, player: &Player)
        requires
            old(self).wf(),
        ensures
            final(self).wf(),
            final(self)@ == without_id(old(self)@, player.id),
    {
        match self.position(player.id) {
            Some(i) => {
                proof {
                    lemma_without_present_id(self@, i as int);
                }
                self.players.remove(i);
                assert(self@ =~= old(self)@.remove(i as int));
            },
            None => {
                proof {
                    lemma_without_absent_id(self@, player.id);
                }
            },
        }
    }

    /// A copy of the roster as it is now.
    pub fn snapshot(&self) -> (copy: Roster)
        ensures
            copy@ == self@,
    {
        let mut players: Vec<Player> = Vec::new();
        let mut i: usize = 0;
        while i < self.players.len()
            invariant
                i <= self.players.len(),
                players@ == self.players@.take(i as int),
            decreases self.players.len() - i,
        {
            players.push(self.players[i].clone());
            assert(self.players@.take(i as int).push(self.players@[i as int])
                =~= self.players@.take(i + 1));
            i += 1;
        }
        assert(self.players@.take(self.players.len() as int) =~= self.players@);
        Roster { players }
    }
}

/// After joining, the player is a member, identifiers are still distinct,
/// and joining once more changes nothing.
pub proof fn lemma_join_is_idempotent(members: Seq<PlayerView>, player: PlayerView)
    requires
        distinct_ids(members),
    ensures
        has_id(with_player(members, player), player.id),
        distinct_ids(with_player(members, player)),
        with_player(with_player(members, player), player) == with_player(members, player),
{
    let joined = with_player(members, player);
    if !has_id(members, player.id) {
        assert(joined[members.len() as int].id == player.id);
        assert forall|i: int, j: int| 0 <= i < j < joined.len() implies (#[trigger] joined[i]).id
            != (#[trigger] joined[j]).id by {
            if j == members.len() {
                assert(joined[i] == members[i]);
            } else {
                assert(joined[i] == members[i]);
                assert(joined[j] == members[j]);
            }
        }
    }
}

/// After leaving, the identifier is gone and every other member is still
/// there; leaving twice is leaving once.
pub proof fn lemma_leave_removes(members: Seq<PlayerView>, id: u64)
    ensures
        !has_id(without_id(members, id), id),
        forall|other: u64| other != id ==> (has_id(without_id(members, id), other) <==> has_id(
            members,
            other,
        )),
        without_id(without_id(members, id), id) == without_id(members, id),
    decreases members.len(),
{
    let rest = without_id(members, id);
    if members.len() > 0 {
        let front = members.drop_last();
        let last = members.last();
        lemma_leave_removes(front, id);
        let front_rest = without_id(front, id);
        assert(!has_id(rest, id)) by {
            if has_id(rest, id) {
                let i = choose|i: int| 0 <= i < rest.len() && (#[trigger] rest[i]).id == id;
                if i < front_rest.len() {
                    assert(front_rest[i].id == id);
                }
            }
        }
        assert forall|other: u64| other != id implies (has_id(rest, other) <==> has_id(
            members,
            other,
        )) by {
            if has_id(rest, other) {
                let i = choose|i: int| 0 <= i < rest.len() && (#[trigger] rest[i]).id == other;
                if i < front_rest.len() {
                    assert(front_rest[i].id == other);
                    assert(has_id(front, other));
                    let j = choose|j: int| 0 <= j < front.len() && (#[trigger] front[j]).id == other;
                    assert(members[j].id == other);
                } else {
                    assert(members[members.len() - 1].id == other);
                }
            }
            if has_id(members, other) {
                let j = choose|j: int| 0 <= j < members.len() && (#[trigger] members[j]).id == other;
                if j < front.len() {
                    assert(front[j].id == other);
                    assert(has_id(front, other));
                    assert(has_id(front_rest, other));
                    let i = choose|i: int|
                        0 <= i < front_rest.len() && (#[trigger] front_rest[i]).id == other;
                    assert(rest[i].id == other);
                } else {
                    assert(rest[rest.len() - 1].id == other);
                }
            }
        }
        lemma_without_absent_id(rest, id);
    } else {
        lemma_without_absent_id(rest, id);
    }
}

} // verus!

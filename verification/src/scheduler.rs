//! The course of one quiz, as a state machine.
//!
//! A quiz waits for its playlist, opens the join window, and then plays its
//! rounds: in each round a song plays while answers are collected, then the
//! points are given and the song is revealed. After the last round the
//! ranking is announced. The machine decides; whoever drives it performs the
//! [`Action`] that a step returns and reports what happened with the next
//! step.

use crate::collector::{
    collect_winners, message_views, race_outcome, ChatMessage, Race, RaceOutcome, RaceOutcomeView,
};
use crate::database::song::{song_views, Song, SongView};
use crate::roster::{distinct_ids, with_player, without_id, Player, PlayerView, Roster};
use crate::scoreboard::{
    awarded, entry_views, players_of, ranked, zero_scores, ScoreBoard, ScoreEntry, ScoreEntryView,
};
use crate::skip_votes::{quorum, SkipVoteTracker};
use crate::spotify::spotify_api::{is_playlist_url, validate_url};
use rand::seq::SliceRandom;
use vstd::prelude::*;

verus! {

/// How long the join window stays open, in seconds.
pub const JOIN_WINDOW_SECONDS: u8 = 10;

/// The volume at which a preview plays, in hundredths of full volume.
pub const PREVIEW_VOLUME_PERCENT: u8 = 50;

/// How long each race of a round waits for an answer, in seconds.
pub const ANSWER_TIMEOUT_SECONDS: u8 = 29;

/// Where a quiz stands. Rounds are counted from 0.
#[derive(Clone, Copy, Debug, PartialEq, Eq, Structural)]
pub enum Phase {
    AwaitingPlaylist,
    OpenForJoins,
    PerRound(usize),
    Scoring(usize),
    Finished,
    Aborted,
}

/// Why a quiz was aborted.
#[derive(Clone, Copy, Debug, PartialEq, Eq, Structural)]
pub enum Failure {
    /// The store could not be read or written.
    Store,
    /// The tracks of the playlist could not be fetched.
    PlaylistFetch,
    /// The playlist address that was entered is not valid.
    PlaylistRejected,
    /// Nobody chose a playlist in time.
    SelectionTimeout,
    /// The audio source of a preview could not be resolved.
    Playback,
}

/// How a round came to its end.
#[derive(Clone, Copy, Debug, PartialEq, Eq, Structural)]
pub enum RoundEnding {
    /// No skip ended the round: each race stopped at its first accepted
    /// answer or when its time was up.
    Timeout,
    /// A race was ended by the skip signal, and the skip votes are a quorum.
    SkipQuorum,
    /// A race was ended by the skip signal without a quorum of skip votes.
    SkipSignal,
}

/// The outcome of one round.
pub struct RoundResult {
    pub title_winner: Option<Player>,
    pub artist_winner: Option<Player>,
    pub ending: RoundEnding,
}

/// What a [`RoundResult`] is in contracts.
pub struct RoundResultView {
    pub title_winner: Option<PlayerView>,
    pub artist_winner: Option<PlayerView>,
    pub ending: RoundEnding,
}

impl View for RoundResult {
    type V = RoundResultView;

    open spec fn view(&self) -> RoundResultView {
        RoundResultView {
            title_winner: match self.title_winner {
                Some(p) => Some(p@),
                None => None,
            },
            artist_winner: match self.artist_winner {
                Some(p) => Some(p@),
                None => None,
            },
            ending: self.ending,
        }
    }
}

/// What the driver of a quiz is to do next.
pub enum Action {
    /// Register the playlist whose address was entered, and fetch its tracks.
    RegisterPlaylist,
    /// Open the join window for `seconds` seconds.
    OpenJoinWindow { seconds: u8 },
    /// Show the roster again: it has changed.
    ShowRoster,
    /// Announce round `number` (counted from 1), play the preview of `track`
    /// at `volume_percent`, and collect answers.
    PlayRound { number: usize, track: Song, volume_percent: u8 },
    /// Stop the playback and reveal `track`.
    RevealTrack { result: RoundResult, track: Song },
    /// Report the number of skip votes, and send the skip signal if `skip`.
    SkipVotes { count: usize, skip: bool },
    /// Announce `ranking`, record the game and leave the voice channel.
    AnnounceRanking { ranking: Vec<ScoreEntry> },
    /// Tell the players that the quiz is off because of `failure`.
    Abort { failure: Failure },
    /// Nothing: the step does not apply where the quiz stands.
    Ignored,
}

/// The winner of a race, if it has one.
pub open spec fn winner_of(outcome: RaceOutcomeView) -> Option<PlayerView> {
    match outcome {
        RaceOutcomeView::Winner(p) => Some(p),
        _ => None,
    }
}

/// `entries` after the points of one race: one point more for its winner.
pub open spec fn scored(entries: Seq<ScoreEntryView>, outcome: RaceOutcomeView) -> Seq<
    ScoreEntryView,
> {
    match outcome {
        RaceOutcomeView::Winner(p) => awarded(entries, p.id),
        _ => entries,
    }
}

/// How a round with these two race outcomes ended, where `quorum` says
/// whether the skip votes of the round are a quorum.
pub open spec fn ending_of(title: RaceOutcomeView, artist: RaceOutcomeView, quorum: bool)
    -> RoundEnding {
    if title is Skipped || artist is Skipped {
        if quorum {
            RoundEnding::SkipQuorum
        } else {
            RoundEnding::SkipSignal
        }
    } else {
        RoundEnding::Timeout
    }
}

/// The number of rounds of a quiz that was asked to play `round_count` rounds
/// from `tracks` playable tracks: the smaller of the two, and none where the
/// count is not positive.
pub open spec fn rounds_to_play(round_count: int, tracks: nat) -> nat {
    if round_count <= 0 {
        0
    } else if round_count <= tracks {
        round_count as nat
    } else {
        tracks
    }
}

/// `rand::seq::SliceRandom::shuffle` with the generator of
/// `rand::thread_rng`: reorders the tracks in place. Whatever order comes
/// out, it holds the same tracks, each as often as before.
#[verifier::external_body]
fn shuffle(tracks: &mut Vec<Song>)
    ensures
        song_views(final(tracks)@).to_multiset() == song_views(old(tracks)@).to_multiset(),
{
    tracks.shuffle(&mut rand::thread_rng());
}

/// One quiz.
pub struct Quiz {
    phase: Phase,
    round_count: i64,
    tracks: Vec<Song>,
    roster: Roster,
    board: ScoreBoard,
    skip_votes: SkipVoteTracker,
}

impl Quiz {
    /// Where the quiz stands.
    pub closed spec fn phase(&self) -> Phase {
        self.phase
    }

    /// The number of rounds that was asked for.
    pub closed spec fn round_count(&self) -> int {
        self.round_count as int
    }

    /// The songs of the rounds, in the order in which they are played.
    pub closed spec fn rounds(&self) -> Seq<SongView> {
        song_views(self.tracks@)
    }

    /// The players that have joined.
    pub closed spec fn roster(&self) -> Seq<PlayerView> {
        self.roster@
    }

    /// The score board.
    pub closed spec fn scores(&self) -> Seq<ScoreEntryView> {
        self.board@
    }

    /// The players that have voted to skip the current round.
    pub closed spec fn skip_voters(&self) -> Set<u64> {
        self.skip_votes@
    }

    /// What holds of a quiz wherever it stands.
    pub open spec fn inv(&self) -> bool {
        &&& distinct_ids(self.roster())
        &&& self.skip_voters().finite()
        &&& self.round_count() <= i64::MAX
        &&& self.rounds().len() == 0 || self.rounds().len() <= self.round_count()
        &&& match self.phase() {
            Phase::AwaitingPlaylist => {
                &&& self.rounds().len() == 0
                &&& self.roster().len() == 0
                &&& self.scores().len() == 0
                &&& self.skip_voters().len() == 0
            },
            Phase::OpenForJoins => self.scores().len() == 0 && self.skip_voters().len() == 0,
            Phase::PerRound(i) => {
                &&& i < self.rounds().len()
                &&& players_of(self.scores()) == self.roster()
                &&& forall|k: int|
                    0 <= k < self.scores().len() ==> (#[trigger] self.scores()[k]).score <= 2 * i
            },
            Phase::Scoring(i) => {
                &&& i < self.rounds().len()
                &&& players_of(self.scores()) == self.roster()
                &&& forall|k: int|
                    0 <= k < self.scores().len() ==> (#[trigger] self.scores()[k]).score <= 2 * (i
                        + 1)
            },
            Phase::Finished => players_of(self.scores()) == self.roster(),
            Phase::Aborted => true,
        }
    }

    /// The quiz is well formed: its parts are, and [`Quiz::inv`] holds.
    pub closed spec fn wf(&self) -> bool {
        &&& self.roster.wf()
        &&& self.board.wf()
        &&& self.skip_votes.wf()
        &&& self.inv()
    }

    /// `other` stands where this quiz stands, with the same rounds, roster,
    /// scores and skip votes.
    pub open spec fn same_as(&self, other: &Quiz) -> bool {
        &&& self.phase() == other.phase()
        &&& self.round_count() == other.round_count()
        &&& self.rounds() == other.rounds()
        &&& self.roster() == other.roster()
        &&& self.scores() == other.scores()
        &&& self.skip_voters() == other.skip_voters()
    }

    /// A well-formed quiz satisfies [`Quiz::inv`].
    pub proof fn lemma_wf_implies_inv(&self)
        requires
            self.wf(),
        ensures
            self.inv(),
    {
    }

    /// A quiz that was asked to play `round_count` rounds and waits for its
    /// playlist. A count that is not positive asks for no round.
    pub fn new(round_count: i64) -> (quiz: Self)
        ensures
            quiz.wf(),
            quiz.phase() == Phase::AwaitingPlaylist,
            quiz.round_count() == round_count,
            quiz.rounds().len() == 0,
            quiz.roster().len() == 0,
            quiz.scores().len() == 0,
    {
        let quiz = Quiz {
            phase: Phase::AwaitingPlaylist,
            round_count,
            tracks: Vec::new(),
            roster: Roster::new(),
            board: ScoreBoard::new(),
            skip_votes: SkipVoteTracker::new(),
        };
        assert(quiz.rounds() =~= Seq::<SongView>::empty());
        quiz
    }

    /// Where the quiz stands.
    pub fn current_phase(&self) -> (phase: Phase)
        ensures
            phase == self.phase(),
    {
        self.phase
    }

    /// The players that have joined.
    pub fn players(&self) -> (roster: &Roster)
        requires
            self.wf(),
        ensures
            roster@ == self.roster(),
            roster.wf(),
    {
        &self.roster
    }

    /// The score board.
    pub fn score_board(&self) -> (board: &ScoreBoard)
        requires
            self.wf(),
        ensures
            board@ == self.scores(),
            board.wf(),
    {
        &self.board
    }

    /// The song of the round that is being played or scored.
    pub fn current_track(&self) -> (track: Option<&Song>)
        requires
            self.wf(),
        ensures
            match self.phase() {
                Phase::PerRound(i) | Phase::Scoring(i) => track is Some && track->0@
                    == self.rounds()[i as int],
                _ => track is None,
            },
    {
        match self.phase {
            Phase::PerRound(i) => Some(&self.tracks[i]),
            Phase::Scoring(i) => Some(&self.tracks[i]),
            _ => None,
        }
    }

    /// Somebody has entered the address of a new playlist. Where it is an
    /// accepted playlist address, the playlist is to be registered and its
    /// tracks fetched; else the quiz is off.
    pub fn playlist_entered(&mut self, url: &String) -> (action: Action)
        requires
            old(self).wf(),
        ensures
            final(self).wf(),
            final(self).round_count() == old(self).round_count(),
            final(self).rounds() == old(self).rounds(),
            final(self).roster() == old(self).roster(),
            final(self).scores() == old(self).scores(),
            final(self).skip_voters() == old(self).skip_voters(),
            match old(self).phase() {
                Phase::AwaitingPlaylist => if is_playlist_url(url@) {
                    action is RegisterPlaylist && final(self).phase() == Phase::AwaitingPlaylist
                } else {
                    &&& final(self).phase() == Phase::Aborted
                    &&& action matches Action::Abort { failure }
                    &&& failure == Failure::PlaylistRejected
                },
                _ => action is Ignored && final(self).phase() == old(self).phase(),
            },
    {
        match self.phase {
            Phase::AwaitingPlaylist => {
                if validate_url(url) {
                    Action::RegisterPlaylist
                } else {
                    self.phase = Phase::Aborted;
                    Action::Abort { failure: Failure::PlaylistRejected }
                }
            },
            _ => Action::Ignored,
        }
    }

    /// Takes the playable tracks of the playlist in the order `ordered`, in
    /// which they are to be played: the quiz plays the first of them, as many
    /// as rounds were asked for, and opens the join window.
    pub fn playlist_ordered(&mut self, ordered: Vec<Song>) -> (action: Action)
        requires
            old(self).wf(),
        ensures
            final(self).wf(),
            match old(self).phase() {
                Phase::AwaitingPlaylist => {
                    &&& final(self).phase() == Phase::OpenForJoins
                    &&& final(self).rounds() == song_views(ordered@).take(
                        rounds_to_play(old(self).round_count(), ordered@.len()) as int,
                    )
                    &&& final(self).round_count() == old(self).round_count()
                    &&& final(self).roster() == old(self).roster()
                    &&& final(self).scores() == old(self).scores()
                    &&& final(self).skip_voters() == old(self).skip_voters()
                    &&& action matches Action::OpenJoinWindow { seconds }
                    &&& seconds == JOIN_WINDOW_SECONDS
                },
                _ => action is Ignored && final(self).same_as(old(self)),
            },
    {
        match self.phase {
            Phase::AwaitingPlaylist => {
                let mut tracks = ordered;
                let fetched = tracks.len();
                let keep: usize = if self.round_count <= 0 {
                    0
                } else if self.round_count as u64 >= fetched as u64 {
                    fetched
                } else {
                    self.round_count as usize
                };
                tracks.truncate(keep);
                assert(song_views(tracks@) =~= song_views(ordered@).take(
                    rounds_to_play(self.round_count as int, ordered@.len()) as int,
                ));
                self.tracks = tracks;
                self.phase = Phase::OpenForJoins;
                Action::OpenJoinWindow { seconds: JOIN_WINDOW_SECONDS }
            },
            _ => Action::Ignored,
        }
    }

    /// Takes the playable tracks of the playlist in playlist order, shuffles
    /// them, and goes on as [`Quiz::playlist_ordered`] does with the order
    /// that came out.
    pub fn playlist_fetched(&mut self, tracks: Vec<Song>) -> (action: Action)
        requires
            old(self).wf(),
        ensures
            final(self).wf(),
            match old(self).phase() {
                Phase::AwaitingPlaylist => {
                    &&& final(self).phase() == Phase::OpenForJoins
                    &&& exists|order: Seq<SongView>|
                        {
                            &&& order.to_multiset() == song_views(tracks@).to_multiset()
                            &&& final(self).rounds() == #[trigger] order.take(
                                rounds_to_play(old(self).round_count(), tracks@.len()) as int,
                            )
                        }
                    &&& final(self).round_count() == old(self).round_count()
                    &&& final(self).roster() == old(self).roster()
                    &&& final(self).scores() == old(self).scores()
                    &&& final(self).skip_voters() == old(self).skip_voters()
                    &&& action matches Action::OpenJoinWindow { seconds }
                    &&& seconds == JOIN_WINDOW_SECONDS
                },
                _ => action is Ignored && final(self).same_as(old(self)),
            },
    {
        let mut shuffled = tracks;
        shuffle(&mut shuffled);
        proof {
            broadcast use vstd::seq_lib::group_to_multiset_ensures;

            assert(song_views(shuffled@).len() == song_views(shuffled@).to_multiset().len());
            assert(song_views(tracks@).len() == song_views(tracks@).to_multiset().len());
        }
        self.playlist_ordered(shuffled)
    }

    /// Reports a failure of the store, of the playlist source or of the
    /// playback: a quiz that is under way is aborted.
    pub fn fail(&mut self, failure: Failure) -> (action: Action)
        requires
            old(self).wf(),
        ensures
            final(self).wf(),
            final(self).round_count() == old(self).round_count(),
            final(self).rounds() == old(self).rounds(),
            final(self).roster() == old(self).roster(),
            final(self).scores() == old(self).scores(),
            final(self).skip_voters() == old(self).skip_voters(),
            match old(self).phase() {
                Phase::Finished | Phase::Aborted => action is Ignored && final(self).phase() == old(
                    self,
                ).phase(),
                _ => {
                    &&& final(self).phase() == Phase::Aborted
                    &&& action matches Action::Abort { failure: reported }
                    &&& reported == failure
                },
            },
    {
        match self.phase {
            Phase::Finished => Action::Ignored,
            Phase::Aborted => Action::Ignored,
            _ => {
                self.phase = Phase::Aborted;
                Action::Abort { failure }
            },
        }
    }

    /// A player asks to join. While the join window is open they are put on
    /// the roster, unless they are on it already; at any other time nothing
    /// changes.
    pub fn join(&mut self, player: Player) -> (action: Action)
        requires
            old(self).wf(),
        ensures
            final(self).wf(),
            match old(self).phase() {
                Phase::OpenForJoins => {
                    &&& action is ShowRoster
                    &&& final(self).phase() == Phase::OpenForJoins
                    &&& final(self).roster() == with_player(old(self).roster(), player@)
                    &&& final(self).round_count() == old(self).round_count()
                    &&& final(self).rounds() == old(self).rounds()
                    &&& final(self).scores() == old(self).scores()
                    &&& final(self).skip_voters() == old(self).skip_voters()
                },
                _ => action is Ignored && final(self).same_as(old(self)),
            },
    {
        match self.phase {
            Phase::OpenForJoins => {
                let mut roster = Roster::new();
                std::mem::swap(&mut roster, &mut self.roster);
                roster.join(player);
                self.roster = roster;
                Action::ShowRoster
            },
            _ => Action::Ignored,
        }
    }

    /// A player asks to leave. While the join window is open they are taken
    /// off the roster; at any other time nothing changes.
    pub fn leave(&mut self, player: &Player) -> (action: Action)
        requires
            old(self).wf(),
        ensures
            final(self).wf(),
            match old(self).phase() {
                Phase::OpenForJoins => {
                    &&& action is ShowRoster
                    &&& final(self).phase() == Phase::OpenForJoins
                    &&& final(self).roster() == without_id(old(self).roster(), player.id)
                    &&& final(self).round_count() == old(self).round_count()
                    &&& final(self).rounds() == old(self).rounds()
                    &&& final(self).scores() == old(self).scores()
                    &&& final(self).skip_voters() == old(self).skip_voters()
                },
                _ => action is Ignored && final(self).same_as(old(self)),
            },
    {
        match self.phase {
            Phase::OpenForJoins => {
                let mut roster = Roster::new();
                std::mem::swap(&mut roster, &mut self.roster);
                roster.leave(player);
                self.roster = roster;
                Action::ShowRoster
            },
            _ => Action::Ignored,
        }
    }

    /// The action that begins round `index`: only to be called in
    /// `PerRound(index)`.
    fn play_action(&self, index: usize) -> (action: Action)
        requires
            index < self.tracks@.len(),
        ensures
            action matches Action::PlayRound { number, track, volume_percent } && number == index
                + 1 && track@ == self.rounds()[index as int] && volume_percent
                == PREVIEW_VOLUME_PERCENT,
    {
        let rounds = self.tracks.len();
        assert(index < rounds);
        Action::PlayRound {
            number: index + 1,
            track: self.tracks[index].clone(),
            volume_percent: PREVIEW_VOLUME_PERCENT,
        }
    }

    /// The join window has closed. The roster is frozen: every member gets a
    /// score of 0, and nobody else will get one. The first round begins, or,
    /// where there is no round to play, the quiz is over.
    pub fn close_join_window(&mut self) -> (action: Action)
        requires
            old(self).wf(),
        ensures
            final(self).wf(),
            match old(self).phase() {
                Phase::OpenForJoins => {
                    &&& final(self).scores() == zero_scores(old(self).roster())
                    &&& final(self).roster() == old(self).roster()
                    &&& final(self).round_count() == old(self).round_count()
                    &&& final(self).rounds() == old(self).rounds()
                    &&& final(self).skip_voters() == Set::<u64>::empty()
                    &&& if old(self).rounds().len() > 0 {
                        &&& final(self).phase() == Phase::PerRound(0)
                        &&& action matches Action::PlayRound { number, track, volume_percent }
                        &&& number == 1
                        &&& track@ == old(self).rounds()[0]
                        &&& volume_percent == PREVIEW_VOLUME_PERCENT
                    } else {
                        &&& final(self).phase() == Phase::Finished
                        &&& action matches Action::AnnounceRanking { ranking }
                        &&& entry_views(ranking@) == ranked(final(self).scores())
                    }
                },
                _ => action is Ignored && final(self).same_as(old(self)),
            },
    {
        match self.phase {
            Phase::OpenForJoins => {
                self.board = ScoreBoard::from_roster(&self.roster);
                self.skip_votes = SkipVoteTracker::new();
                if self.tracks.len() > 0 {
                    self.phase = Phase::PerRound(0);
                    self.play_action(0)
                } else {
                    self.phase = Phase::Finished;
                    Action::AnnounceRanking { ranking: self.board.ranking() }
                }
            },
            _ => Action::Ignored,
        }
    }

    /// A player votes to skip the song of the round that is being played.
    /// The vote is counted once, and the skip signal is due as soon as the
    /// voters are a quorum among the players on the roster. Outside a round
    /// nothing changes.
    pub fn record_skip_vote(&mut self, player_id: u64) -> (action: Action)
        requires
            old(self).wf(),
        ensures
            final(self).wf(),
            final(self).phase() == old(self).phase(),
            final(self).round_count() == old(self).round_count(),
            final(self).rounds() == old(self).rounds(),
            final(self).roster() == old(self).roster(),
            final(self).scores() == old(self).scores(),
            match old(self).phase() {
                Phase::PerRound(_) => {
                    &&& final(self).skip_voters() == old(self).skip_voters().insert(player_id)
                    &&& action matches Action::SkipVotes { count, skip }
                    &&& count == final(self).skip_voters().len()
                    &&& skip == quorum(count as nat, old(self).roster().len())
                },
                _ => action is Ignored && final(self).skip_voters() == old(self).skip_voters(),
            },
    {
        match self.phase {
            Phase::PerRound(_) => {
                let mut votes = SkipVoteTracker::new();
                std::mem::swap(&mut votes, &mut self.skip_votes);
                let count = votes.record_vote(player_id);
                let skip = votes.quorum_reached(self.roster.len());
                self.skip_votes = votes;
                Action::SkipVotes { count, skip }
            },
            _ => Action::Ignored,
        }
    }

    /// The answers of the round are in: `messages` holds what the channel
    /// received while the song played, in the order of arrival. Both races
    /// are run over them against the frozen roster, the winner of each gets
    /// one point, and the song is to be revealed whatever the outcome.
    pub fn collect(&mut self, messages: &Vec<ChatMessage>, bot_user: u64) -> (action: Action)
        requires
            old(self).wf(),
        ensures
            final(self).wf(),
            final(self).round_count() == old(self).round_count(),
            final(self).rounds() == old(self).rounds(),
            final(self).roster() == old(self).roster(),
            final(self).skip_voters() == old(self).skip_voters(),
            players_of(final(self).scores()) == players_of(old(self).scores()),
            forall|k: int|
                0 <= k < old(self).scores().len() ==> (#[trigger] final(self).scores()[k]).score
                    >= old(self).scores()[k].score,
            match old(self).phase() {
                Phase::PerRound(i) => {
                    let title = race_outcome(
                        Race::Title,
                        message_views(messages@),
                        old(self).rounds()[i as int],
                        bot_user,
                        old(self).roster(),
                    );
                    let artist = race_outcome(
                        Race::Artist,
                        message_views(messages@),
                        old(self).rounds()[i as int],
                        bot_user,
                        old(self).roster(),
                    );
                    &&& final(self).phase() == Phase::Scoring(i)
                    &&& final(self).scores() == scored(scored(old(self).scores(), title), artist)
                    &&& action matches Action::RevealTrack { result, track }
                    &&& track@ == old(self).rounds()[i as int]
                    &&& result@.title_winner == winner_of(title)
                    &&& result@.artist_winner == winner_of(artist)
                    &&& result@.ending == ending_of(
                        title,
                        artist,
                        quorum(old(self).skip_voters().len(), old(self).roster().len()),
                    )
                },
                _ => action is Ignored && final(self).same_as(old(self)),
            },
    {
        match self.phase {
            Phase::PerRound(i) => {
                let (title, artist) = collect_winners(
                    messages,
                    &self.tracks[i],
                    bot_user,
                    &self.roster,
                );
                proof {
                    crate::collector::lemma_winner_is_on_roster(
                        Race::Title,
                        message_views(messages@),
                        self.rounds()[i as int],
                        bot_user,
                        self.roster(),
                    );
                    crate::collector::lemma_winner_is_on_roster(
                        Race::Artist,
                        message_views(messages@),
                        self.rounds()[i as int],
                        bot_user,
                        self.roster(),
                    );
                }
                let skipped = title.is_skipped() || artist.is_skipped();
                let ending = if skipped {
                    if self.skip_votes.quorum_reached(self.roster.len()) {
                        RoundEnding::SkipQuorum
                    } else {
                        RoundEnding::SkipSignal
                    }
                } else {
                    RoundEnding::Timeout
                };
                let mut board = ScoreBoard::new();
                std::mem::swap(&mut board, &mut self.board);
                let ghost before = board@;
                let title_winner = match title {
                    RaceOutcome::Winner(player) => {
                        board.award(player.id);
                        Some(player)
                    },
                    _ => None,
                };
                let ghost between = board@;
                assert(between == scored(before, title@));
                assert forall|k: int| 0 <= k < between.len() implies (#[trigger] between[k]).score
                    <= 2 * i + 1 && between[k].score >= before[k].score by {
                    assert(before[k].score <= 2 * i);
                }
                let artist_winner = match artist {
                    RaceOutcome::Winner(player) => {
                        board.award(player.id);
                        Some(player)
                    },
                    _ => None,
                };
                assert(board@ == scored(between, artist@));
                assert forall|k: int| 0 <= k < board@.len() implies (#[trigger] board@[k]).score
                    <= 2 * (i + 1) && board@[k].score >= before[k].score by {
                    assert(between[k].score <= 2 * i + 1);
                }
                self.board = board;
                self.phase = Phase::Scoring(i);
                Action::RevealTrack {
                    result: RoundResult { title_winner, artist_winner, ending },
                    track: self.tracks[i].clone(),
                }
            },
            _ => Action::Ignored,
        }
    }

    /// The song of the round has been revealed: the next round begins with
    /// no skip votes, or, after the last round, the quiz is over and its
    /// ranking is to be announced.
    pub fn round_announced(&mut self) -> (action: Action)
        requires
            old(self).wf(),
        ensures
            final(self).wf(),
            final(self).round_count() == old(self).round_count(),
            final(self).rounds() == old(self).rounds(),
            final(self).roster() == old(self).roster(),
            final(self).scores() == old(self).scores(),
            match old(self).phase() {
                Phase::Scoring(i) => {
                    if i + 1 < old(self).rounds().len() {
                        &&& final(self).phase() == Phase::PerRound((i + 1) as usize)
                        &&& final(self).skip_voters() == Set::<u64>::empty()
                        &&& action matches Action::PlayRound { number, track, volume_percent }
                        &&& number == i + 2
                        &&& track@ == old(self).rounds()[i + 1]
                        &&& volume_percent == PREVIEW_VOLUME_PERCENT
                    } else {
                        &&& final(self).phase() == Phase::Finished
                        &&& final(self).skip_voters() == old(self).skip_voters()
                        &&& action matches Action::AnnounceRanking { ranking }
                        &&& entry_views(ranking@) == ranked(old(self).scores())
                    }
                },
                _ => action is Ignored && final(self).same_as(old(self)),
            },
    {
        match self.phase {
            Phase::Scoring(i) => {
                let rounds = self.tracks.len();
                assert(i < rounds);
                if i + 1 < rounds {
                    self.skip_votes = SkipVoteTracker::new();
                    self.phase = Phase::PerRound(i + 1);
                    self.play_action(i + 1)
                } else {
                    self.phase = Phase::Finished;
                    Action::AnnounceRanking { ranking: self.board.ranking() }
                }
            },
            _ => Action::Ignored,
        }
    }
}

} // verus!

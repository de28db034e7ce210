//! Answer collection for one round: two races over the messages of a
//! channel, one for the title and one for the artist of the song that plays.
//!
//! A race is over at the first message that it accepts. It accepts the skip
//! signal of the bot, and the answer of a roster member that matches what the
//! race is about. The two races read the same messages and do not influence
//! each other.

use crate::database::song::{Song, SongView};
use crate::matcher::{
    artist_form, is_artist_correct, is_title_correct, levenshtein, texts_match,
    unicode_lowercase, MATCH_THRESHOLD,
};
use crate::roster::{has_id, Player, PlayerView, Roster};
use crate::text::normalize;
use vstd::prelude::*;

verus! {

/// A message of the channel: who wrote it and what it says.
pub struct ChatMessage {
    pub author: Player,
    pub content: String,
}

/// What a [`ChatMessage`] is in contracts.
pub struct ChatMessageView {
    pub author: PlayerView,
    pub content: Seq<char>,
}

impl View for ChatMessage {
    type V = ChatMessageView;

    open spec fn view(&self) -> ChatMessageView {
        ChatMessageView { author: self.author@, content: self.content@ }
    }
}

impl ChatMessage {
    pub fn new(author: Player, content: String) -> (message: Self)
        ensures
            message.author == author,
            message.content == content,
    {
        ChatMessage { author, content }
    }
}

/// The views of `messages`, in order.
pub open spec fn message_views(messages: Seq<ChatMessage>) -> Seq<ChatMessageView> {
    messages.map_values(|m: ChatMessage| m@)
}

/// What a race is about.
#[derive(Clone, Copy, Debug, PartialEq, Eq, Structural)]
pub enum Race {
    Title,
    Artist,
}

/// How a race ended: with the player whose answer was accepted first, with
/// the skip signal, or with nothing accepted.
pub enum RaceOutcome {
    Winner(Player),
    Skipped,
    NoMatch,
}

/// What a [`RaceOutcome`] is in contracts.
pub enum RaceOutcomeView {
    Winner(PlayerView),
    Skipped,
    NoMatch,
}

impl View for RaceOutcome {
    type V = RaceOutcomeView;

    open spec fn view(&self) -> RaceOutcomeView {
        match self {
            RaceOutcome::Winner(player) => RaceOutcomeView::Winner(player@),
            RaceOutcome::Skipped => RaceOutcomeView::Skipped,
            RaceOutcome::NoMatch => RaceOutcomeView::NoMatch,
        }
    }
}

impl RaceOutcome {
    /// The winner, if the race has one.
    pub fn winner(&self) -> (player: Option<&Player>)
        ensures
            match self@ {
                RaceOutcomeView::Winner(p) => player is Some && player->0@ == p,
                _ => player is None,
            },
    {
        match self {
            RaceOutcome::Winner(player) => Some(player),
            _ => None,
        }
    }

    pub fn is_skipped(&self) -> (skipped: bool)
        ensures
            skipped == (self@ is Skipped),
    {
        match self {
            RaceOutcome::Skipped => true,
            _ => false,
        }
    }
}

/// The text of the skip signal.
pub open spec fn skip_text() -> Seq<char> {
    "Skipping!"@
}

/// `message` is the skip signal: written by the bot `bot`, and saying exactly
/// [`skip_text`].
pub open spec fn is_skip_signal(message: ChatMessageView, bot: u64) -> bool {
    message.author.id == bot && message.content == skip_text()
}

/// `content` is a right answer in `race` for `track`. A title answer and the
/// title are compared in their canonical forms, and a track without a title
/// has no right answer; an artist answer and the artist name are compared in
/// lower case, without the artist punctuation. Both comparisons allow
/// [`MATCH_THRESHOLD`] edits.
pub open spec fn answers(race: Race, content: Seq<char>, track: SongView) -> bool {
    match race {
        Race::Title => track.song_name.len() > 0 && texts_match(
            content,
            track.song_name,
            MATCH_THRESHOLD as nat,
        ),
        Race::Artist => levenshtein(
            artist_form(unicode_lowercase(content)),
            artist_form(unicode_lowercase(track.artist_name)),
        ) <= MATCH_THRESHOLD,
    }
}

/// `race` accepts `message`: it is the skip signal, whoever is on the roster,
/// or its author is on the roster and it answers the race.
pub open spec fn accepts(
    race: Race,
    message: ChatMessageView,
    track: SongView,
    bot: u64,
    roster: Seq<PlayerView>,
) -> bool {
    is_skip_signal(message, bot) || (has_id(roster, message.author.id) && answers(
        race,
        message.content,
        track,
    ))
}

/// What an accepted message means for its race.
pub open spec fn outcome_of(message: ChatMessageView, bot: u64) -> RaceOutcomeView {
    if is_skip_signal(message, bot) {
        RaceOutcomeView::Skipped
    } else {
        RaceOutcomeView::Winner(message.author)
    }
}

/// The outcome of `race` over `messages`, read in the order of their arrival:
/// that of the first accepted message, and no match where none is accepted.
pub open spec fn race_outcome(
    race: Race,
    messages: Seq<ChatMessageView>,
    track: SongView,
    bot: u64,
    roster: Seq<PlayerView>,
) -> RaceOutcomeView
    decreases messages.len(),
{
    if messages.len() == 0 {
        RaceOutcomeView::NoMatch
    } else if accepts(race, messages[0], track, bot, roster) {
        outcome_of(messages[0], bot)
    } else {
        race_outcome(race, messages.drop_first(), track, bot, roster)
    }
}

/// A track without a title has no right title answer, whatever is guessed.
pub proof fn lemma_empty_title_has_no_answer(content: Seq<char>, track: SongView)
    requires
        track.song_name.len() == 0,
    ensures
        !answers(Race::Title, content, track),
{
}

/// The messages that the two races of a round collected, in the order of
/// their arrival. Each comes with the number that the platform gave it, and
/// numbers rise with arrival; where both races collected the same message, it
/// stands once.
pub open spec fn in_arrival_order(
    artist: Option<(u64, ChatMessageView)>,
    title: Option<(u64, ChatMessageView)>,
) -> Seq<ChatMessageView> {
    match (artist, title) {
        (None, None) => Seq::empty(),
        (Some(a), None) => seq![a.1],
        (None, Some(t)) => seq![t.1],
        (Some(a), Some(t)) => if a.0 == t.0 {
            seq![a.1]
        } else if a.0 < t.0 {
            seq![a.1, t.1]
        } else {
            seq![t.1, a.1]
        },
    }
}

/// A collected message with its number, as contracts see it.
pub open spec fn numbered_view(collected: Option<(u64, ChatMessage)>) -> Option<
    (u64, ChatMessageView),
> {
    match collected {
        Some(c) => Some((c.0, c.1@)),
        None => None,
    }
}

/// A race has at most one winner, and it is the first arrival: where the
/// message at `first` is accepted and none before it, the outcome is that of
/// this message alone, whatever arrives later.
pub proof fn lemma_first_arrival_wins(
    race: Race,
    messages: Seq<ChatMessageView>,
    track: SongView,
    bot: u64,
    roster: Seq<PlayerView>,
    first: int,
)
    requires
        0 <= first < messages.len(),
        accepts(race, messages[first], track, bot, roster),
        forall|i: int| 0 <= i < first ==> !accepts(race, #[trigger] messages[i], track, bot, roster),
    ensures
        race_outcome(race, messages, track, bot, roster) == outcome_of(messages[first], bot),
    decreases first,
{
    if first > 0 {
        let rest = messages.drop_first();
        assert(!accepts(race, messages[0], track, bot, roster));
        assert forall|i: int| 0 <= i < first - 1 implies !accepts(
            race,
            #[trigger] rest[i],
            track,
            bot,
            roster,
        ) by {
            assert(rest[i] == messages[i + 1]);
        }
        assert(rest[first - 1] == messages[first]);
        lemma_first_arrival_wins(race, rest, track, bot, roster, first - 1);
    }
}

/// Where no message is accepted, the race has no match.
pub proof fn lemma_nothing_accepted(
    race: Race,
    messages: Seq<ChatMessageView>,
    track: SongView,
    bot: u64,
    roster: Seq<PlayerView>,
)
    requires
        forall|i: int|
            0 <= i < messages.len() ==> !accepts(race, #[trigger] messages[i], track, bot, roster),
    ensures
        race_outcome(race, messages, track, bot, roster) is NoMatch,
    decreases messages.len(),
{
    if messages.len() > 0 {
        let rest = messages.drop_first();
        assert(!accepts(race, messages[0], track, bot, roster));
        assert forall|i: int| 0 <= i < rest.len() implies !accepts(
            race,
            #[trigger] rest[i],
            track,
            bot,
            roster,
        ) by {
            assert(rest[i] == messages[i + 1]);
        }
        lemma_nothing_accepted(race, rest, track, bot, roster);
    }
}

/// Whoever wins a race wrote one of the messages and is on the roster, unless
/// they are the bot itself; a race without messages, or over an empty roster
/// without a skip signal, has no winner.
pub proof fn lemma_winner_is_on_roster(
    race: Race,
    messages: Seq<ChatMessageView>,
    track: SongView,
    bot: u64,
    roster: Seq<PlayerView>,
)
    ensures
        race_outcome(race, messages, track, bot, roster) matches RaceOutcomeView::Winner(p) ==> {
            &&& exists|i: int| 0 <= i < messages.len() && (#[trigger] messages[i]).author == p
            &&& has_id(roster, p.id)
        },
        messages.len() == 0 ==> race_outcome(race, messages, track, bot, roster) is NoMatch,
        roster.len() == 0 ==> !(race_outcome(race, messages, track, bot, roster) is Winner),
    decreases messages.len(),
{
    if messages.len() > 0 {
        let rest = messages.drop_first();
        lemma_winner_is_on_roster(race, rest, track, bot, roster);
        if !accepts(race, messages[0], track, bot, roster) {
            if let RaceOutcomeView::Winner(p) = race_outcome(race, rest, track, bot, roster) {
                let i = choose|i: int| 0 <= i < rest.len() && (#[trigger] rest[i]).author == p;
                assert(messages[i + 1].author == p);
            }
        } else {
            if !is_skip_signal(messages[0], bot) {
                assert(messages[0].author == messages[0].author);
            }
        }
    }
}

/// Whether `message` is the skip signal of the bot `bot_user`.
pub fn is_skip_message(message: &ChatMessage, bot_user: u64) -> (skip: bool)
    ensures
        skip == is_skip_signal(message@, bot_user),
{
    message.author.id == bot_user && message.content == String::from_str("Skipping!")
}

/// Whether `race` accepts `message` in a round that plays `track`.
pub fn accepts_message(
    race: Race,
    message: &ChatMessage,
    track: &Song,
    bot_user: u64,
    players: &Roster,
) -> (accepted: bool)
    ensures
        accepted == accepts(race, message@, track@, bot_user, players@),
{
    if is_skip_message(message, bot_user) {
        return true;
    }
    if !players.contains(message.author.id) {
        return false;
    }
    match race {
        Race::Title => {
            if track.song_name.as_str().is_empty() {
                return false;
            }
            let title = normalize(track.song_name.as_str());
            let guess = normalize(message.content.as_str());
            is_title_correct(guess.as_str(), &title, MATCH_THRESHOLD)
        },
        Race::Artist => is_artist_correct(message.content.as_str(), track, MATCH_THRESHOLD),
    }
}

/// Runs `race` over `messages`, which stand in the order of their arrival.
pub fn run_race(
    race: Race,
    messages: &Vec<ChatMessage>,
    track: &Song,
    bot_user: u64,
    players: &Roster,
) -> (outcome: RaceOutcome)
    ensures
        outcome@ == race_outcome(race, message_views(messages@), track@, bot_user, players@),
{
    let ghost all = message_views(messages@);
    assert(all.skip(0) =~= all);
    let mut i: usize = 0;
    while i < messages.len()
        invariant
            i <= messages.len(),
            all == message_views(messages@),
            race_outcome(race, all, track@, bot_user, players@) == race_outcome(
                race,
                all.skip(i as int),
                track@,
                bot_user,
                players@,
            ),
        decreases messages.len() - i,
    {
        let message = &messages[i];
        proof {
            assert(all.skip(i as int)[0] == message@);
            assert(all.skip(i as int).drop_first() =~= all.skip(i + 1));
        }
        if accepts_message(race, message, track, bot_user, players) {
            if is_skip_message(message, bot_user) {
                return RaceOutcome::Skipped;
            }
            return RaceOutcome::Winner(message.author.clone());
        }
        i += 1;
    }
    assert(all.skip(i as int).len() == 0);
    RaceOutcome::NoMatch
}

/// Puts what the two races of a round collected in the order of arrival, for
/// [`collect_winners`] to read.
pub fn arrival_order(artist: Option<(u64, ChatMessage)>, title: Option<(u64, ChatMessage)>) -> (messages:
    Vec<ChatMessage>)
    ensures
        message_views(messages@) == in_arrival_order(numbered_view(artist), numbered_view(title)),
{
    let mut messages: Vec<ChatMessage> = Vec::new();
    match (artist, title) {
        (None, None) => {},
        (Some(a), None) => {
            messages.push(a.1);
        },
        (None, Some(t)) => {
            messages.push(t.1);
        },
        (Some(a), Some(t)) => {
            if a.0 == t.0 {
                messages.push(a.1);
            } else if a.0 < t.0 {
                messages.push(a.1);
                messages.push(t.1);
            } else {
                messages.push(t.1);
                messages.push(a.1);
            }
        },
    }
    assert(message_views(messages@) =~= in_arrival_order(
        numbered_view(artist),
        numbered_view(title),
    ));
    messages
}

/// The title race of a round over `messages`.
pub fn check_for_title(
    messages: &Vec<ChatMessage>,
    song: &Song,
    bot_user: u64,
    players: &Roster,
) -> (outcome: RaceOutcome)
    ensures
        outcome@ == race_outcome(
            Race::Title,
            message_views(messages@),
            song@,
            bot_user,
            players@,
        ),
{
    run_race(Race::Title, messages, song, bot_user, players)
}

/// The artist race of a round over `messages`.
pub fn check_for_author(
    messages: &Vec<ChatMessage>,
    song: &Song,
    bot_user: u64,
    players: &Roster,
) -> (outcome: RaceOutcome)
    ensures
        outcome@ == race_outcome(
            Race::Artist,
            message_views(messages@),
            song@,
            bot_user,
            players@,
        ),
{
    run_race(Race::Artist, messages, song, bot_user, players)
}

/// Both races of a round over the same `messages`: the outcome of the title
/// race, then that of the artist race.
pub fn collect_winners(
    messages: &Vec<ChatMessage>,
    expected_track: &Song,
    bot_identity: u64,
    roster_snapshot: &Roster,
) -> (outcomes: (RaceOutcome, RaceOutcome))
    ensures
        outcomes.0@ == race_outcome(
            Race::Title,
            message_views(messages@),
            expected_track@,
            bot_identity,
            roster_snapshot@,
        ),
        outcomes.1@ == race_outcome(
            Race::Artist,
            message_views(messages@),
            expected_track@,
            bot_identity,
            roster_snapshot@,
        ),
{
    let title = check_for_title(messages, expected_track, bot_identity, roster_snapshot);
    let artist = check_for_author(messages, expected_track, bot_identity, roster_snapshot);
    (title, artist)
}

} // verus!

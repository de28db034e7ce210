//! Fuzzy matching of a guess against a reference text: two texts match when
//! the edit distance between them is within a tolerance.

use crate::database::song::Song;
use crate::text::{canonical, normalize, strip_punct, without_artist_punctuation};
use vstd::prelude::*;

verus! {

/// The tolerance for titles and for artists.
pub const MATCH_THRESHOLD: usize = 3;

pub open spec fn min3(x: nat, y: nat, z: nat) -> nat {
    if x <= y && x <= z {
        x
    } else if y <= z {
        y
    } else {
        z
    }
}

/// The Levenshtein distance between `a` and `b`: the least number of
/// insertions, deletions and substitutions of single characters that turn `a`
/// into `b`.
pub open spec fn levenshtein(a: Seq<char>, b: Seq<char>) -> nat
    decreases a.len() + b.len(),
{
    if a.len() == 0 {
        b.len()
    } else if b.len() == 0 {
        a.len()
    } else {
        min3(
            levenshtein(a.drop_last(), b) + 1,
            levenshtein(a, b.drop_last()) + 1,
            levenshtein(a.drop_last(), b.drop_last()) + if a.last() == b.last() {
                0nat
            } else {
                1nat
            },
        )
    }
}

/// What `str::to_lowercase` of the standard library makes of a text: its
/// lower-case form by the rules of Unicode.
pub uninterp spec fn unicode_lowercase(s: Seq<char>) -> Seq<char>;

/// The canonical forms of `guess` and of `reference` are within `threshold`
/// edits of each other.
pub open spec fn texts_match(guess: Seq<char>, reference: Seq<char>, threshold: nat) -> bool {
    levenshtein(canonical(guess), canonical(reference)) <= threshold
}

/// The form in which artist names are compared, made from the lower-case form
/// `lowered` of a name: without the artist punctuation, and with all else as
/// it stands, white space and other punctuation too.
pub open spec fn artist_form(lowered: Seq<char>) -> Seq<char> {
    without_artist_punctuation(lowered)
}

/// A text is at distance 0 from itself.
pub proof fn lemma_levenshtein_same(s: Seq<char>)
    ensures
        levenshtein(s, s) == 0,
    decreases s.len(),
{
    if s.len() > 0 {
        lemma_levenshtein_same(s.drop_last());
    }
}

/// The distance from `a` to `b` is the distance from `b` to `a`.
pub proof fn lemma_levenshtein_symmetric(a: Seq<char>, b: Seq<char>)
    ensures
        levenshtein(a, b) == levenshtein(b, a),
    decreases a.len() + b.len(),
{
    if a.len() > 0 && b.len() > 0 {
        lemma_levenshtein_symmetric(a.drop_last(), b);
        lemma_levenshtein_symmetric(a, b.drop_last());
        lemma_levenshtein_symmetric(a.drop_last(), b.drop_last());
    }
}

/// Two texts with the same canonical form match at tolerance 0.
pub proof fn lemma_same_canonical_form_matches(a: Seq<char>, b: Seq<char>)
    requires
        canonical(a) == canonical(b),
    ensures
        texts_match(a, b, 0),
{
    lemma_levenshtein_same(canonical(a));
}

/// What matches at one tolerance matches at the next.
pub proof fn lemma_threshold_monotonic(a: Seq<char>, b: Seq<char>, threshold: nat)
    requires
        texts_match(a, b, threshold),
    ensures
        texts_match(a, b, threshold + 1),
{
}

/// Normalising a text beforehand does not change what it matches.
pub proof fn lemma_matches_after_normalizing(a: Seq<char>, b: Seq<char>, threshold: nat)
    ensures
        texts_match(canonical(a), b, threshold) == texts_match(a, b, threshold),
        texts_match(a, canonical(b), threshold) == texts_match(a, b, threshold),
{
    crate::text::lemma_normalize_idempotent(a);
    crate::text::lemma_normalize_idempotent(b);
}

/// `edit_distance::edit_distance`: the Levenshtein distance between the two
/// texts, counted in characters, where inserting, deleting and substituting a
/// character cost 1 each. It takes the longer text first, which changes
/// nothing: see [`lemma_levenshtein_symmetric`].
#[verifier::external_body]
fn edit_distance(a: &str, b: &str) -> (distance: usize)
    ensures
        distance == levenshtein(a@, b@),
{
    edit_distance::edit_distance(a, b)
}

/// `str::to_lowercase` of the standard library: the lower-case form of the
/// text, which depends on the text alone.
#[verifier::external_body]
fn to_lowercase(s: &str) -> (lowered: String)
    ensures
        lowered@ == unicode_lowercase(s@),
{
    s.to_lowercase()
}

/// Whether `guess` is within `threshold` edits of `track`, both taken as they
/// stand.
pub fn is_title_correct(guess: &str, track: &String, threshold: usize) -> (correct: bool)
    ensures
        correct == (levenshtein(guess@, track@) <= threshold),
{
    edit_distance(guess, track.as_str()) <= threshold
}

/// Whether the canonical forms of `guess` and `reference` are within
/// `threshold` edits of each other.
pub fn is_match(guess: &str, reference: &str, threshold: usize) -> (matched: bool)
    ensures
        matched == texts_match(guess@, reference@, threshold as nat),
{
    let guess_form = normalize(guess);
    let reference_form = normalize(reference);
    is_title_correct(guess_form.as_str(), &reference_form, threshold)
}

/// Whether a guess and an artist name match, both given in lower case: the
/// artist punctuation is taken out of both, and what is left must be within
/// `threshold` edits of each other.
pub fn lowered_artist_matches(guess: &str, artist: &str, threshold: usize) -> (matched: bool)
    ensures
        matched == (levenshtein(artist_form(guess@), artist_form(artist@)) <= threshold),
{
    let guess_bare = strip_punct(guess);
    let artist_bare = strip_punct(artist);
    is_title_correct(guess_bare.as_str(), &artist_bare, threshold)
}

/// Whether `guess` names the artist of `track`: both texts are put in lower
/// case and then compared as [`lowered_artist_matches`] compares.
pub fn is_artist_correct(guess: &str, track: &Song, threshold: usize) -> (correct: bool)
    ensures
        correct == (levenshtein(
            artist_form(unicode_lowercase(guess@)),
            artist_form(unicode_lowercase(track.artist_name@)),
        ) <= threshold),
{
    let guess_lowered = to_lowercase(guess);
    let artist_lowered = to_lowercase(track.artist_name.as_str());
    lowered_artist_matches(guess_lowered.as_str(), artist_lowered.as_str(), threshold)
}

} // verus!

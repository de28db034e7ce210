//! Canonical forms of free text: what is left of a title or a guess once
//! dash suffixes, parenthesised parts, punctuation, white space and case are
//! taken away.
//!
//! Every transformation is defined on `Seq<char>`; a line is a maximal run of
//! characters without `'\n'`, and no cut ever crosses a line break.

use vstd::prelude::*;

verus! {

/// `String::push` of the standard library: appends one character to the end
/// of the string and changes nothing else.
pub assume_specification[ String::push ](s: &mut String, ch: char)
    ensures
        final(s)@ == old(s)@.push(ch),
;

// ---------------------------------------------------------------------------
// Characters
// ---------------------------------------------------------------------------

/// The characters `0-9`, `a-z` and `A-Z`.
pub open spec fn is_alnum(c: char) -> bool {
    ('0' <= c && c <= '9') || ('a' <= c && c <= 'z') || ('A' <= c && c <= 'Z')
}

/// The characters `0-9` and `a-z`: what a canonical form is made of.
pub open spec fn is_plain_char(c: char) -> bool {
    ('0' <= c && c <= '9') || ('a' <= c && c <= 'z')
}

/// The lower-case form of an ASCII capital; any other character unchanged.
pub open spec fn ascii_lower(c: char) -> char {
    if 'A' <= c && c <= 'Z' {
        ((c as u8) + 32) as char
    } else {
        c
    }
}

/// The punctuation that is taken out of artist names and artist guesses:
/// `& # / \ : * ? " < > |`.
pub open spec fn is_artist_punctuation(c: char) -> bool {
    c == '&' || c == '#' || c == '/' || c == '\\' || c == ':' || c == '*' || c == '?' || c == '"'
        || c == '<' || c == '>' || c == '|'
}

/// Every character of `s` is a digit or a lower-case ASCII letter.
pub open spec fn is_plain(s: Seq<char>) -> bool {
    forall|i: int| 0 <= i < s.len() ==> is_plain_char(#[trigger] s[i])
}

// ---------------------------------------------------------------------------
// The steps of normalisation
// ---------------------------------------------------------------------------

/// The last character of `s` is a dash or follows one on its own line.
pub open spec fn dash_open(s: Seq<char>) -> bool
    decreases s.len(),
{
    if s.len() == 0 {
        false
    } else if s.last() == '\n' {
        false
    } else if s.last() == '-' {
        true
    } else {
        dash_open(s.drop_last())
    }
}

/// `s` without its dash suffixes: on every line, the first dash and all that
/// follows it up to the end of the line are gone.
pub open spec fn cut_dash_suffixes(s: Seq<char>) -> Seq<char>
    decreases s.len(),
{
    if s.len() == 0 {
        Seq::empty()
    } else if dash_open(s) {
        cut_dash_suffixes(s.drop_last())
    } else {
        cut_dash_suffixes(s.drop_last()).push(s.last())
    }
}

/// Reading `s` with `depth` parenthesised groups open, the outermost of them
/// is closed before the line ends: every opening parenthesis on the way opens
/// a group more, and every closing one closes the innermost.
pub open spec fn group_closes(s: Seq<char>, depth: nat) -> bool
    decreases s.len(),
{
    if s.len() == 0 || s[0] == '\n' {
        false
    } else if s[0] == ')' {
        depth <= 1 || group_closes(s.drop_first(), (depth - 1) as nat)
    } else if s[0] == '(' {
        group_closes(s.drop_first(), depth + 1)
    } else {
        group_closes(s.drop_first(), depth)
    }
}

/// The number of parenthesised groups that are open after the first `n`
/// characters of `s`. A parenthesised part begins at an opening parenthesis
/// that stands outside any part and is closed on its line; within it, groups
/// may be nested, and it ends where its own closing parenthesis stands. An
/// opening parenthesis that is never closed, and a closing one outside any
/// part, are characters like others.
pub open spec fn open_groups(s: Seq<char>, n: nat) -> nat
    decreases n,
{
    if n == 0 {
        0
    } else {
        let before = open_groups(s, (n - 1) as nat);
        if before == 0 {
            if s[n - 1] == '(' && group_closes(s.skip(n as int), 1) {
                1
            } else {
                0
            }
        } else if s[n - 1] == '(' {
            before + 1
        } else if s[n - 1] == ')' {
            (before - 1) as nat
        } else {
            before
        }
    }
}

/// The character at `k` lies in a parenthesised part, the two parentheses
/// included: a group is open before it or behind it.
pub open spec fn in_parentheses(s: Seq<char>, k: int) -> bool {
    open_groups(s, k as nat) > 0 || open_groups(s, (k + 1) as nat) > 0
}

/// The first `n` characters of `s` without those that lie in parentheses.
pub open spec fn cut_parentheses_upto(s: Seq<char>, n: nat) -> Seq<char>
    decreases n,
{
    if n == 0 {
        Seq::empty()
    } else if in_parentheses(s, n - 1) {
        cut_parentheses_upto(s, (n - 1) as nat)
    } else {
        cut_parentheses_upto(s, (n - 1) as nat).push(s[n - 1])
    }
}

/// `s` without its parenthesised parts: each part, from its opening
/// parenthesis to the closing one that belongs to it, is gone with all that
/// is nested in it, and what stands between two parts stays.
pub open spec fn cut_parentheses(s: Seq<char>) -> Seq<char> {
    cut_parentheses_upto(s, s.len())
}

/// The letters and digits of `s`, in order. All white space goes with the
/// rest.
pub open spec fn keep_alnum(s: Seq<char>) -> Seq<char>
    decreases s.len(),
{
    if s.len() == 0 {
        Seq::empty()
    } else if is_alnum(s.last()) {
        keep_alnum(s.drop_last()).push(s.last())
    } else {
        keep_alnum(s.drop_last())
    }
}

/// `s` with every ASCII capital in lower case.
pub open spec fn lower(s: Seq<char>) -> Seq<char> {
    s.map_values(|c: char| ascii_lower(c))
}

/// `s` without the punctuation of [`is_artist_punctuation`].
pub open spec fn without_artist_punctuation(s: Seq<char>) -> Seq<char>
    decreases s.len(),
{
    if s.len() == 0 {
        Seq::empty()
    } else if is_artist_punctuation(s.last()) {
        without_artist_punctuation(s.drop_last())
    } else {
        without_artist_punctuation(s.drop_last()).push(s.last())
    }
}

/// `word` stands in `s` at index `i`.
pub open spec fn occurs_at(s: Seq<char>, word: Seq<char>, i: int) -> bool {
    0 <= i && i + word.len() <= s.len() && s.subrange(i, i + word.len()) == word
}

/// One of the marker words `feat.`, `ft.`, `remix`, `edit` stands in `s` at
/// index `i`, spelled exactly so.
pub open spec fn marker_at(s: Seq<char>, i: int) -> bool {
    occurs_at(s, seq!['f', 'e', 'a', 't', '.'], i) || occurs_at(s, seq!['f', 't', '.'], i)
        || occurs_at(s, seq!['r', 'e', 'm', 'i', 'x'], i) || occurs_at(
        s,
        seq!['e', 'd', 'i', 't'],
        i,
    )
}

/// The least index from `from` on at which a marker word stands in `s`, or
/// the length of `s` where there is none.
pub open spec fn first_marker_from(s: Seq<char>, from: int) -> int
    decreases s.len() - from,
{
    if from >= s.len() {
        s.len() as int
    } else if marker_at(s, from) {
        from
    } else {
        first_marker_from(s, from + 1)
    }
}

/// `s` up to its first marker word; all of `s` where it has none.
pub open spec fn cut_at_marker(s: Seq<char>) -> Seq<char> {
    s.take(first_marker_from(s, 0))
}

/// The canonical form of a guess or a title: dash suffixes cut, parenthesised
/// parts cut, only letters and digits kept, in lower case.
pub open spec fn canonical(s: Seq<char>) -> Seq<char> {
    lower(keep_alnum(cut_parentheses(cut_dash_suffixes(s))))
}

/// The other form of a reference title: as [`canonical`], but what is left
/// after the two cuts is also cut at its first marker word before letters and
/// digits are picked. Unlike [`canonical`], it can change a text that is
/// already in this form.
pub open spec fn canonical_title(s: Seq<char>) -> Seq<char> {
    lower(keep_alnum(cut_at_marker(cut_parentheses(cut_dash_suffixes(s)))))
}

// ---------------------------------------------------------------------------
// Laws
// ---------------------------------------------------------------------------

proof fn lemma_keep_alnum_is_alnum(s: Seq<char>)
    ensures
        forall|i: int| 0 <= i < keep_alnum(s).len() ==> is_alnum(#[trigger] keep_alnum(s)[i]),
    decreases s.len(),
{
    if s.len() > 0 {
        let head = keep_alnum(s.drop_last());
        lemma_keep_alnum_is_alnum(s.drop_last());
        assert forall|i: int| 0 <= i < keep_alnum(s).len() implies is_alnum(
            #[trigger] keep_alnum(s)[i],
        ) by {
            if i < head.len() {
                assert(keep_alnum(s)[i] == head[i]);
            }
        }
    }
}

/// A canonical form holds digits and lower-case ASCII letters only.
pub proof fn lemma_canonical_is_plain(s: Seq<char>)
    ensures
        is_plain(canonical(s)),
        is_plain(canonical_title(s)),
{
    let cut = cut_parentheses(cut_dash_suffixes(s));
    lemma_keep_alnum_is_alnum(cut);
    lemma_keep_alnum_is_alnum(cut_at_marker(cut));
    assert forall|i: int| 0 <= i < canonical(s).len() implies is_plain_char(
        #[trigger] canonical(s)[i],
    ) by {
        assert(is_alnum(keep_alnum(cut)[i]));
    }
    assert forall|i: int| 0 <= i < canonical_title(s).len() implies is_plain_char(
        #[trigger] canonical_title(s)[i],
    ) by {
        assert(is_alnum(keep_alnum(cut_at_marker(cut))[i]));
    }
}

proof fn lemma_plain_prefix(s: Seq<char>, n: int)
    requires
        is_plain(s),
        0 <= n <= s.len(),
    ensures
        is_plain(s.take(n)),
{
}

proof fn lemma_plain_has_no_dash(s: Seq<char>)
    requires
        is_plain(s),
    ensures
        !dash_open(s),
    decreases s.len(),
{
    if s.len() > 0 {
        assert(is_plain_char(s[s.len() - 1]));
        lemma_plain_prefix(s, s.len() - 1);
        lemma_plain_has_no_dash(s.drop_last());
    }
}

proof fn lemma_plain_keeps_through_dash_cut(s: Seq<char>)
    requires
        is_plain(s),
    ensures
        cut_dash_suffixes(s) == s,
    decreases s.len(),
{
    if s.len() > 0 {
        lemma_plain_has_no_dash(s);
        lemma_plain_prefix(s, s.len() - 1);
        lemma_plain_keeps_through_dash_cut(s.drop_last());
        assert(s.drop_last().push(s.last()) =~= s);
    } else {
        assert(s =~= Seq::<char>::empty());
    }
}

proof fn lemma_plain_keeps_through_parentheses_cut(s: Seq<char>, n: nat)
    requires
        is_plain(s),
        n <= s.len(),
    ensures
        open_groups(s, n) == 0,
        cut_parentheses_upto(s, n) == s.take(n as int),
    decreases n,
{
    if n > 0 {
        assert(is_plain_char(s[n - 1]));
        lemma_plain_keeps_through_parentheses_cut(s, (n - 1) as nat);
        assert(s.take(n - 1).push(s[n - 1]) =~= s.take(n as int));
    } else {
        assert(s.take(0) =~= Seq::<char>::empty());
    }
}

proof fn lemma_plain_keeps_through_alnum(s: Seq<char>)
    requires
        is_plain(s),
    ensures
        keep_alnum(s) == s,
    decreases s.len(),
{
    if s.len() > 0 {
        assert(is_plain_char(s[s.len() - 1]));
        lemma_plain_prefix(s, s.len() - 1);
        lemma_plain_keeps_through_alnum(s.drop_last());
        assert(s.drop_last().push(s.last()) =~= s);
    } else {
        assert(s =~= Seq::<char>::empty());
    }
}

/// A text of digits and lower-case ASCII letters is its own canonical form.
pub proof fn lemma_plain_is_canonical(s: Seq<char>)
    requires
        is_plain(s),
    ensures
        canonical(s) == s,
{
    lemma_plain_keeps_through_dash_cut(s);
    lemma_plain_keeps_through_parentheses_cut(s, s.len());
    assert(s.take(s.len() as int) =~= s);
    lemma_plain_keeps_through_alnum(s);
    assert forall|i: int| 0 <= i < s.len() implies #[trigger] lower(s)[i] == s[i] by {
        assert(is_plain_char(s[i]));
    }
    assert(lower(s) =~= s);
}

/// Normalising twice gives what normalising once gives.
pub proof fn lemma_normalize_idempotent(s: Seq<char>)
    ensures
        canonical(canonical(s)) == canonical(s),
{
    lemma_canonical_is_plain(s);
    lemma_plain_is_canonical(canonical(s));
}

/// The canonical form of a title is not changed by normalising it again.
pub proof fn lemma_canonical_title_is_fixed(s: Seq<char>)
    ensures
        canonical(canonical_title(s)) == canonical_title(s),
{
    lemma_canonical_is_plain(s);
    lemma_plain_is_canonical(canonical_title(s));
}

/// The index that [`first_marker_from`] gives lies between `from` and the
/// length, no marker word stands before it, and one stands at it unless it is
/// the length.
pub proof fn lemma_first_marker_is_least(s: Seq<char>, from: int)
    requires
        0 <= from <= s.len(),
    ensures
        from <= first_marker_from(s, from) <= s.len(),
        forall|i: int| from <= i < first_marker_from(s, from) ==> !marker_at(s, i),
        first_marker_from(s, from) < s.len() ==> marker_at(s, first_marker_from(s, from)),
    decreases s.len() - from,
{
    if from < s.len() && !marker_at(s, from) {
        lemma_first_marker_is_least(s, from + 1);
    }
}

// ---------------------------------------------------------------------------
// Executable code
// ---------------------------------------------------------------------------

/// The characters of `s`, in order.
pub fn chars_of(s: &str) -> (v: Vec<char>)
    ensures
        v@ == s@,
{
    broadcast use vstd::string::group_string_axioms;

    let mut v: Vec<char> = Vec::new();
    for c in it: s.chars()
        invariant
            it.seq() == s@,
            v@ == it.seq().take(it.index() as int),
    {
        v.push(c);
    }
    assert(v@ =~= s@);
    v
}

/// The string made of the characters of `v`, in order.
pub fn string_of(v: &Vec<char>) -> (s: String)
    ensures
        s@ == v@,
{
    let mut s = String::new();
    let mut i: usize = 0;
    while i < v.len()
        invariant
            i <= v.len(),
            s@ == v@.take(i as int),
        decreases v.len() - i,
    {
        s.push(v[i]);
        assert(v@.take(i as int).push(v@[i as int]) =~= v@.take(i + 1));
        i += 1;
    }
    assert(v@.take(v.len() as int) =~= v@);
    s
}

pub fn is_alnum_char(c: char) -> (r: bool)
    ensures
        r == is_alnum(c),
{
    ('0' <= c && c <= '9') || ('a' <= c && c <= 'z') || ('A' <= c && c <= 'Z')
}

fn lower_char(c: char) -> (r: char)
    ensures
        r == ascii_lower(c),
{
    if 'A' <= c && c <= 'Z' {
        ((c as u8) + 32) as char
    } else {
        c
    }
}

fn is_artist_punctuation_char(c: char) -> (r: bool)
    ensures
        r == is_artist_punctuation(c),
{
    c == '&' || c == '#' || c == '/' || c == '\\' || c == ':' || c == '*' || c == '?' || c == '"'
        || c == '<' || c == '>' || c == '|'
}

fn cut_dash_suffixes_of(v: &Vec<char>) -> (out: Vec<char>)
    ensures
        out@ == cut_dash_suffixes(v@),
{
    let mut out: Vec<char> = Vec::new();
    let mut open = false;
    let mut i: usize = 0;
    while i < v.len()
        invariant
            i <= v.len(),
            open == dash_open(v@.take(i as int)),
            out@ == cut_dash_suffixes(v@.take(i as int)),
        decreases v.len() - i,
    {
        let c = v[i];
        proof {
            assert(v@.take(i + 1).drop_last() =~= v@.take(i as int));
            assert(v@.take(i + 1).last() == c);
        }
        if c == '\n' {
            open = false;
        } else if c == '-' {
            open = true;
        }
        if !open {
            out.push(c);
        }
        i += 1;
    }
    assert(v@.take(v.len() as int) =~= v@);
    out
}

/// Whether the group that was opened just before `from` is closed on its
/// line.
fn closes_group(v: &Vec<char>, from: usize) -> (closes: bool)
    requires
        1 <= from <= v.len(),
    ensures
        closes == group_closes(v@.skip(from as int), 1),
{
    let n = v.len();
    let mut k: usize = from;
    let mut depth: usize = 1;
    while k < n
        invariant
            n == v.len(),
            1 <= from <= k <= n,
            1 <= depth <= k - from + 1,
            group_closes(v@.skip(from as int), 1) == group_closes(v@.skip(k as int), depth as nat),
        decreases n - k,
    {
        let c = v[k];
        proof {
            assert(v@.skip(k as int)[0] == c);
            assert(v@.skip(k as int).drop_first() =~= v@.skip(k + 1));
        }
        if c == '\n' {
            return false;
        }
        if c == ')' {
            if depth == 1 {
                return true;
            }
            depth -= 1;
        } else if c == '(' {
            depth += 1;
        }
        k += 1;
    }
    false
}

fn cut_parentheses_of(v: &Vec<char>) -> (out: Vec<char>)
    ensures
        out@ == cut_parentheses(v@),
{
    let mut out: Vec<char> = Vec::new();
    let mut depth: usize = 0;
    let mut i: usize = 0;
    while i < v.len()
        invariant
            i <= v.len(),
            depth <= i,
            depth == open_groups(v@, i as nat),
            out@ == cut_parentheses_upto(v@, i as nat),
        decreases v.len() - i,
    {
        let c = v[i];
        let before = depth;
        if before == 0 {
            if c == '(' && closes_group(v, i + 1) {
                depth = 1;
            }
        } else if c == '(' {
            depth += 1;
        } else if c == ')' {
            depth -= 1;
        }
        if before == 0 && depth == 0 {
            out.push(c);
        }
        i += 1;
    }
    out
}

/// Whether `word` stands in `v` at index `i`.
pub fn word_stands_at(v: &Vec<char>, word: &Vec<char>, i: usize) -> (r: bool)
    requires
        i <= v.len(),
    ensures
        r == occurs_at(v@, word@, i as int),
{
    if word.len() > v.len() - i {
        return false;
    }
    let mut j: usize = 0;
    while j < word.len()
        invariant
            j <= word.len(),
            i + word.len() <= v.len(),
            forall|k: int| 0 <= k < j ==> v@[i + k] == word@[k],
        decreases word.len() - j,
    {
        if v[i + j] != word[j] {
            assert(v@.subrange(i as int, i + word.len())[j as int] != word@[j as int]);
            return false;
        }
        j += 1;
    }
    assert(v@.subrange(i as int, i + word.len()) =~= word@);
    true
}

fn cut_at_marker_of(v: &Vec<char>) -> (out: Vec<char>)
    ensures
        out@ == cut_at_marker(v@),
{
    let feat: Vec<char> = vec!['f', 'e', 'a', 't', '.'];
    let ft: Vec<char> = vec!['f', 't', '.'];
    let remix: Vec<char> = vec!['r', 'e', 'm', 'i', 'x'];
    let edit: Vec<char> = vec!['e', 'd', 'i', 't'];
    assert(feat@ =~= seq!['f', 'e', 'a', 't', '.']);
    assert(ft@ =~= seq!['f', 't', '.']);
    assert(remix@ =~= seq!['r', 'e', 'm', 'i', 'x']);
    assert(edit@ =~= seq!['e', 'd', 'i', 't']);
    let mut out: Vec<char> = Vec::new();
    let mut i: usize = 0;
    while i < v.len()
        invariant
            i <= v.len(),
            feat@ == seq!['f', 'e', 'a', 't', '.'],
            ft@ == seq!['f', 't', '.'],
            remix@ == seq!['r', 'e', 'm', 'i', 'x'],
            edit@ == seq!['e', 'd', 'i', 't'],
            out@ == v@.take(i as int),
            first_marker_from(v@, 0) == first_marker_from(v@, i as int),
        decreases v.len() - i,
    {
        if word_stands_at(v, &feat, i) || word_stands_at(v, &ft, i) || word_stands_at(v, &remix, i)
            || word_stands_at(v, &edit, i) {
            return out;
        }
        out.push(v[i]);
        assert(v@.take(i as int).push(v@[i as int]) =~= v@.take(i + 1));
        i += 1;
    }
    out
}

fn lower_alnum_of(v: &Vec<char>) -> (out: Vec<char>)
    ensures
        out@ == lower(keep_alnum(v@)),
{
    let mut out: Vec<char> = Vec::new();
    let mut i: usize = 0;
    while i < v.len()
        invariant
            i <= v.len(),
            out@ == lower(keep_alnum(v@.take(i as int))),
        decreases v.len() - i,
    {
        let c = v[i];
        proof {
            assert(v@.take(i + 1).drop_last() =~= v@.take(i as int));
            assert(v@.take(i + 1).last() == c);
        }
        if is_alnum_char(c) {
            out.push(lower_char(c));
            assert(lower(keep_alnum(v@.take(i as int)).push(c)) =~= lower(
                keep_alnum(v@.take(i as int)),
            ).push(ascii_lower(c)));
        }
        i += 1;
    }
    assert(v@.take(v.len() as int) =~= v@);
    out
}

/// The canonical form of `raw`: on each line the first dash and what follows
/// it are cut, then every parenthesised part with all that is nested in it;
/// of the rest the letters and digits are kept, in lower case.
pub fn normalize(raw: &str) -> (out: String)
    ensures
        out@ == canonical(raw@),
{
    let chars = chars_of(raw);
    let cut = cut_parentheses_of(&cut_dash_suffixes_of(&chars));
    string_of(&lower_alnum_of(&cut))
}

/// The other form of a reference title: as [`normalize`], but after the two
/// cuts the text also ends where its first `feat.`, `ft.`, `remix` or `edit`
/// begins. The answer races do not use it: they compare a title as they
/// compare a guess.
pub fn normalize_title(raw: &str) -> (out: String)
    ensures
        out@ == canonical_title(raw@),
{
    let chars = chars_of(raw);
    let cut = cut_at_marker_of(&cut_parentheses_of(&cut_dash_suffixes_of(&chars)));
    string_of(&lower_alnum_of(&cut))
}

/// `raw` without the characters `& # / \ : * ? " < > |`.
pub fn strip_punct(raw: &str) -> (out: String)
    ensures
        out@ == without_artist_punctuation(raw@),
{
    let v = chars_of(raw);
    let mut out: Vec<char> = Vec::new();
    let mut i: usize = 0;
    while i < v.len()
        invariant
            i <= v.len(),
            out@ == without_artist_punctuation(v@.take(i as int)),
        decreases v.len() - i,
    {
        let c = v[i];
        proof {
            assert(v@.take(i + 1).drop_last() =~= v@.take(i as int));
            assert(v@.take(i + 1).last() == c);
        }
        if !is_artist_punctuation_char(c) {
            out.push(c);
        }
        i += 1;
    }
    assert(v@.take(v.len() as int) =~= v@);
    string_of(&out)
}

} // verus!

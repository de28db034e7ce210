//! Playlist addresses: which ones are accepted, and where the playlist
//! identifier stands in one.

use crate::database::playlist::playlist_url;
use crate::database::song::last_segment;
use crate::text::{chars_of, is_alnum, occurs_at, word_stands_at};
use vstd::prelude::*;

verus! {

/// The index behind `word` where it stands in `s` at `at`; else `at`.
pub open spec fn skip_word(s: Seq<char>, at: int, word: Seq<char>) -> int {
    if occurs_at(s, word, at) {
        at + word.len()
    } else {
        at
    }
}

/// The index behind the scheme `https://` or `http://` where `s` begins with
/// one; else 0.
pub open spec fn skip_scheme(s: Seq<char>) -> int {
    if occurs_at(s, "https://"@, 0) {
        "https://"@.len() as int
    } else {
        skip_word(s, 0, "http://"@)
    }
}

/// The end of the run of letters and digits that begins in `s` at `from`.
pub open spec fn alnum_run_end(s: Seq<char>, from: int) -> int
    decreases s.len() - from,
{
    if 0 <= from < s.len() && is_alnum(s[from]) {
        alnum_run_end(s, from + 1)
    } else {
        from
    }
}

/// No line break stands in `s` from `from` up to, and without, `to`.
pub open spec fn no_line_break(s: Seq<char>, from: int, to: int) -> bool {
    forall|i: int| from <= i < to && 0 <= i < s.len() ==> s[i] != '\n'
}

/// Where the identifier begins in `s`, if `s` is a playlist address: behind
/// the scheme, `www.` and `open.`, as far as they stand there, and behind
/// `spotify.com/playlist/`.
pub open spec fn id_start(s: Seq<char>) -> int {
    skip_word(s, skip_word(s, skip_scheme(s), "www."@), "open."@) + "spotify.com/playlist/"@.len()
}

/// `s` is an accepted playlist address: an optional scheme `http://` or
/// `https://`, an optional `www.`, an optional `open.`, then
/// `spotify.com/playlist/`, an identifier of one or more letters and digits,
/// and at the end, optionally, a question mark with anything behind it but a
/// line break.
pub open spec fn is_playlist_url(s: Seq<char>) -> bool {
    let end = alnum_run_end(s, id_start(s));
    &&& occurs_at(s, "spotify.com/playlist/"@, id_start(s) - "spotify.com/playlist/"@.len())
    &&& end > id_start(s)
    &&& (end == s.len() || (s[end] == '?' && no_line_break(s, end, s.len() as int)))
}

/// The playlist identifier in the playlist address `s`: the whole run of
/// letters and digits behind `spotify.com/playlist/`.
pub open spec fn playlist_id(s: Seq<char>) -> Seq<char> {
    s.subrange(id_start(s), alnum_run_end(s, id_start(s)))
}

/// `id` is a playlist identifier: one or more letters and digits.
pub open spec fn is_playlist_id(id: Seq<char>) -> bool {
    &&& id.len() >= 1
    &&& forall|i: int| 0 <= i < id.len() ==> is_alnum(#[trigger] id[i])
}

proof fn lemma_no_colon_is_own_segment(id: Seq<char>)
    requires
        forall|i: int| 0 <= i < id.len() ==> id[i] != ':',
    ensures
        last_segment(id) == id,
    decreases id.len(),
{
    crate::database::song::lemma_after_last_colon(id);
    let k = crate::database::song::after_last_colon(id);
    if k > 0 {
        assert(id[k - 1] == ':');
    }
    assert(id.skip(0) =~= id);
}

/// Where letters and digits stand in `s` from `from` up to `to`, and `to` is
/// the length or no letter or digit stands there, the run that begins at
/// `from` ends at `to`.
pub proof fn lemma_alnum_run(s: Seq<char>, from: int, to: int)
    requires
        0 <= from <= to <= s.len(),
        forall|i: int| from <= i < to ==> is_alnum(#[trigger] s[i]),
        to == s.len() || !is_alnum(s[to]),
    ensures
        alnum_run_end(s, from) == to,
    decreases to - from,
{
    if from < to {
        assert(is_alnum(s[from]));
        lemma_alnum_run(s, from + 1, to);
    }
}

/// The scheme with the number `scheme`: none, `http://` or `https://`.
pub open spec fn scheme_word(scheme: int) -> Seq<char> {
    if scheme == 1 {
        "http://"@
    } else if scheme == 2 {
        "https://"@
    } else {
        Seq::empty()
    }
}

/// `word` if `present`, else nothing.
pub open spec fn optional(present: bool, word: Seq<char>) -> Seq<char> {
    if present {
        word
    } else {
        Seq::empty()
    }
}

/// The playlist address that is made of these parts.
pub open spec fn address_of(scheme: int, www: bool, open: bool, id: Seq<char>, query: Seq<char>)
    -> Seq<char> {
    scheme_word(scheme) + optional(www, "www."@) + optional(open, "open."@)
        + "spotify.com/playlist/"@ + id + query
}

/// `id` and `query` can stand in a playlist address: the identifier is made
/// of one or more letters and digits, and the query is empty or begins with a
/// question mark and holds no line break.
pub open spec fn address_parts(scheme: int, id: Seq<char>, query: Seq<char>) -> bool {
    &&& 0 <= scheme <= 2
    &&& id.len() >= 1
    &&& forall|i: int| 0 <= i < id.len() ==> is_alnum(#[trigger] id[i])
    &&& (query.len() == 0 || query[0] == '?')
    &&& forall|i: int| 0 <= i < query.len() ==> #[trigger] query[i] != '\n'
}

proof fn lemma_word_stands(front: Seq<char>, word: Seq<char>, back: Seq<char>)
    ensures
        occurs_at(front + word + back, word, front.len() as int),
{
    assert((front + word + back).subrange(front.len() as int, (front.len() + word.len()) as int)
        =~= word);
}

proof fn lemma_word_is_absent(s: Seq<char>, word: Seq<char>, at: int, k: int)
    requires
        0 <= k < word.len(),
        0 <= at,
        at + k < s.len() ==> s[at + k] != word[k],
    ensures
        !occurs_at(s, word, at),
{
    if occurs_at(s, word, at) {
        assert(s.subrange(at, at + word.len())[k] == word[k]);
    }
}

/// Every address that is made of a scheme or none, `www.` or not, `open.` or
/// not, the host and path, an identifier and a query is accepted.
pub proof fn lemma_made_address_is_accepted(
    scheme: int,
    www: bool,
    open: bool,
    id: Seq<char>,
    query: Seq<char>,
)
    requires
        address_parts(scheme, id, query),
    ensures
        is_playlist_url(address_of(scheme, www, open, id, query)),
        playlist_id(address_of(scheme, www, open, id, query)) == id,
{
    reveal_strlit("https://");
    reveal_strlit("http://");
    reveal_strlit("www.");
    reveal_strlit("open.");
    reveal_strlit("spotify.com/playlist/");
    let host = "spotify.com/playlist/"@;
    let a = scheme_word(scheme);
    let b = optional(www, "www."@);
    let c = optional(open, "open."@);
    let s = address_of(scheme, www, open, id, query);
    let tail = host + id + query;
    assert(s =~= a + (b + (c + tail)));
    assert(tail.len() >= 22);
    assert(tail[0] == 's');
    // the scheme
    let after_scheme = a.len() as int;
    assert(skip_scheme(s) == after_scheme) by {
        if scheme == 2 {
            lemma_word_stands(Seq::empty(), "https://"@, b + (c + tail));
            assert(Seq::<char>::empty() + "https://"@ + (b + (c + tail)) =~= s);
        } else if scheme == 1 {
            lemma_word_is_absent(s, "https://"@, 0, 4);
            lemma_word_stands(Seq::empty(), "http://"@, b + (c + tail));
            assert(Seq::<char>::empty() + "http://"@ + (b + (c + tail)) =~= s);
        } else {
            assert(s[0] == 'w' || s[0] == 'o' || s[0] == 's');
            lemma_word_is_absent(s, "https://"@, 0, 0);
            lemma_word_is_absent(s, "http://"@, 0, 0);
        }
    }
    // www.
    let after_www = after_scheme + b.len();
    assert(skip_word(s, after_scheme, "www."@) == after_www) by {
        if www {
            lemma_word_stands(a, "www."@, c + tail);
            assert(a + "www."@ + (c + tail) =~= s);
        } else {
            assert(s[after_scheme] == 'o' || s[after_scheme] == 's');
            lemma_word_is_absent(s, "www."@, after_scheme, 0);
        }
    }
    // open.
    let after_open = after_www + c.len();
    assert(skip_word(s, after_www, "open."@) == after_open) by {
        if open {
            lemma_word_stands(a + b, "open."@, tail);
            assert(a + b + "open."@ + tail =~= s);
        } else {
            assert(s[after_www] == 's');
            lemma_word_is_absent(s, "open."@, after_www, 0);
        }
    }
    // host, identifier and query
    lemma_word_stands(a + b + c, host, id + query);
    assert(a + b + c + host + (id + query) =~= s);
    let id_start = after_open + 21;
    let id_end = id_start + id.len();
    assert forall|i: int| id_start <= i < id_end implies is_alnum(#[trigger] s[i]) by {
        assert(s[i] == id[i - id_start]);
    }
    if query.len() > 0 {
        assert(s[id_end] == query[0]);
        assert forall|i: int| id_end <= i < s.len() implies s[i] != '\n' by {
            assert(s[i] == query[i - id_end]);
        }
    }
    lemma_alnum_run(s, id_start, id_end);
    assert(s.subrange(id_start, id_end) =~= id);
}

/// The web address that is made of a playlist identifier is accepted, and
/// the identifier is read back from it.
pub proof fn lemma_id_round_trip(id: Seq<char>)
    requires
        is_playlist_id(id),
    ensures
        is_playlist_url(playlist_url(id)),
        playlist_id(playlist_url(id)) == id,
{
    reveal_strlit("https://open.spotify.com/playlist/");
    reveal_strlit("https://");
    reveal_strlit("open.");
    reveal_strlit("spotify.com/playlist/");
    assert forall|i: int| 0 <= i < id.len() implies id[i] != ':' by {
        assert(is_alnum(id[i]));
    }
    lemma_no_colon_is_own_segment(id);
    let query = Seq::<char>::empty();
    assert(playlist_url(id) =~= address_of(2, false, true, id, query));
    lemma_made_address_is_accepted(2, false, true, id, query);
}

/// Every accepted address is made of a scheme or none, `www.` or not,
/// `open.` or not, the host and path, an identifier and a query.
pub proof fn lemma_accepted_address_is_made(s: Seq<char>)
    requires
        is_playlist_url(s),
    ensures
        exists|scheme: int, www: bool, open: bool, id: Seq<char>, query: Seq<char>|
            address_parts(scheme, id, query) && s == #[trigger] address_of(
                scheme,
                www,
                open,
                id,
                query,
            ),
{
    reveal_strlit("https://");
    reveal_strlit("http://");
    reveal_strlit("www.");
    reveal_strlit("open.");
    reveal_strlit("spotify.com/playlist/");
    let after_scheme = skip_scheme(s);
    let scheme: int = if after_scheme == 8 {
        2
    } else if after_scheme == 7 {
        1
    } else {
        0
    };
    let after_www = skip_word(s, after_scheme, "www."@);
    let www = after_www != after_scheme;
    let after_open = skip_word(s, after_www, "open."@);
    let open = after_open != after_www;
    let id_start = after_open + 21;
    let id_end = alnum_run_end(s, id_start);
    lemma_alnum_run_is_alnum(s, id_start);
    let id = s.subrange(id_start, id_end);
    let query = s.subrange(id_end, s.len() as int);
    assert(scheme_word(scheme) =~= s.subrange(0, after_scheme));
    assert(optional(www, "www."@) =~= s.subrange(after_scheme, after_www));
    assert(optional(open, "open."@) =~= s.subrange(after_www, after_open));
    assert("spotify.com/playlist/"@ =~= s.subrange(after_open, id_start));
    assert(s =~= address_of(scheme, www, open, id, query));
    assert(address_parts(scheme, id, query));
}

/// The run of letters and digits that begins at `from` ends within `s`, and
/// holds letters and digits only.
pub proof fn lemma_alnum_run_is_alnum(s: Seq<char>, from: int)
    requires
        0 <= from <= s.len(),
    ensures
        from <= alnum_run_end(s, from) <= s.len(),
        forall|i: int| from <= i < alnum_run_end(s, from) ==> is_alnum(#[trigger] s[i]),
    decreases s.len() - from,
{
    if from < s.len() && is_alnum(s[from]) {
        lemma_alnum_run_is_alnum(s, from + 1);
    }
}

/// Where the identifier begins and ends in `v`, if `v` is an accepted
/// playlist address.
#[verifier::loop_isolation(false)]
fn identifier_span(v: &Vec<char>) -> (span: Option<(usize, usize)>)
    ensures
        match span {
            Some((from, to)) => {
                &&& is_playlist_url(v@)
                &&& from == id_start(v@)
                &&& to == alnum_run_end(v@, id_start(v@))
                &&& from < to <= v@.len()
            },
            None => !is_playlist_url(v@),
        },
{
    let https = chars_of("https://");
    let http = chars_of("http://");
    let www = chars_of("www.");
    let open = chars_of("open.");
    let host = chars_of("spotify.com/playlist/");
    proof {
        reveal_strlit("https://");
        reveal_strlit("http://");
        reveal_strlit("www.");
        reveal_strlit("open.");
        reveal_strlit("spotify.com/playlist/");
    }
    let n = v.len();
    let mut at: usize = 0;
    if word_stands_at(v, &https, 0) {
        at = https.len();
    } else if word_stands_at(v, &http, 0) {
        at = http.len();
    }
    if word_stands_at(v, &www, at) {
        at = at + www.len();
    }
    if word_stands_at(v, &open, at) {
        at = at + open.len();
    }
    if !word_stands_at(v, &host, at) {
        return None;
    }
    let id = at + host.len();
    let mut end: usize = id;
    while end < n && crate::text::is_alnum_char(v[end])
        invariant
            n == v.len(),
            id <= end <= n,
            alnum_run_end(v@, id as int) == alnum_run_end(v@, end as int),
        decreases n - end,
    {
        end += 1;
    }
    if end == id {
        return None;
    }
    if end == n {
        return Some((id, end));
    }
    if v[end] != '?' {
        return None;
    }
    let mut k: usize = end;
    while k < n
        invariant
            n == v.len(),
            end <= k <= n,
            no_line_break(v@, end as int, k as int),
        decreases n - k,
    {
        if v[k] == '\n' {
            return None;
        }
        k += 1;
    }
    Some((id, end))
}

/// Whether `url` is an accepted playlist address.
pub fn validate_url(url: &String) -> (valid: bool)
    ensures
        valid == is_playlist_url(url@),
{
    let v = chars_of(url.as_str());
    identifier_span(&v).is_some()
}

/// The playlist identifier in `url`, if `url` is an accepted playlist
/// address.
pub fn find_id_in_url(url: &str) -> (id: Option<String>)
    ensures
        match id {
            Some(found) => is_playlist_url(url@) && found@ == playlist_id(url@),
            None => !is_playlist_url(url@),
        },
{
    let v = chars_of(url);
    match identifier_span(&v) {
        Some((from, to)) => {
            let mut out = String::new();
            let mut j: usize = from;
            while j < to
                invariant
                    from <= j <= to <= v.len(),
                    out@ == v@.subrange(from as int, j as int),
                decreases to - j,
            {
                out.push(v[j]);
                assert(v@.subrange(from as int, j as int).push(v@[j as int]) =~= v@.subrange(
                    from as int,
                    j + 1,
                ));
                j += 1;
            }
            Some(out)
        },
        None => None,
    }
}

/// The playlist identifier in the accepted playlist address `url`: the whole
/// run of letters and digits behind `spotify.com/playlist/`.
pub fn get_id_from_url(url: &str) -> (id: String)
    requires
        is_playlist_url(url@),
    ensures
        id@ == playlist_id(url@),
{
    match find_id_in_url(url) {
        Some(id) => id,
        None => {
            proof {
                assert(false);
            }
            String::new()
        },
    }
}

} // verus!

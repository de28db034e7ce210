use regex::Regex;
use song_quiz::text::{chars_of, normalize, normalize_title, string_of, strip_punct};

fn by_patterns(raw: &str) -> String {
    let parentheses = Regex::new(r"\(.*?\)").unwrap();
    let dash = Regex::new(r"-.*").unwrap();
    let special = Regex::new(r"[^0-9a-zA-Z\s]+").unwrap();
    let whitespace = Regex::new(r"\s*").unwrap();
    let mut text = dash.replace_all(raw, "").to_string();
    text = parentheses.replace_all(&text, "").to_string();
    text = special.replace_all(&text, "").to_string();
    text = whitespace.replace_all(&text, "").to_string();
    text.to_lowercase()
}

fn samples() -> Vec<&'static str> {
    vec![
        "",
        "Song",
        "Song - Remastered",
        "Song - Remastered 2011 - Live",
        "Hello (feat. X)",
        "A(b)c(d)e",
        "a)b(c",
        "((a)",
        "(a))",
        "()",
        "(",
        ")",
        "a(b",
        "Don't Stop Believin'",
        "  lots   of\tspace ",
        "line one - cut\nline two (gone) kept",
        "(open\nclose)",
        "-\n-\n",
        "a-b(c)d\n(e)f-g\nh",
        "x (y - z) w",
        "x - (y) w",
        "\u{dc}n\u{ef}code 123",
        "wide\u{3000}space\u{a0}here",
        "\u{130}stanbul",
        "Stra\u{df}e",
        "MiXeD CaSe 99",
        "tab\there\r\nnext",
        "What's Up? (Remix) - Radio Edit",
        "99 Luftballons",
        "!!!",
        "a\nb\nc",
        "(a)\n(b",
        "q(\n)r(s)t",
        "Alpha (Live) Omega (Edit)",
        "(a)(b)(c",
        "x)y(z)w(",
    ]
}

#[test]
fn normalize_cuts_a_dash_suffix() {
    assert_eq!(normalize("Song - Remastered"), "song");
}

#[test]
fn normalize_cuts_a_parenthesised_part() {
    assert_eq!(normalize("Hello (feat. X)"), "hello");
}

#[test]
fn normalize_cuts_every_parenthesised_part_and_keeps_what_is_between() {
    assert_eq!(normalize("A(b)c(d)e"), "ace");
    assert_eq!(normalize("Alpha (Live) Omega (Edit)"), "alphaomega");
}

#[test]
fn normalize_cuts_what_is_nested_in_a_part_with_it() {
    assert_eq!(normalize("a(b(c)d)e"), "ae");
    assert_eq!(normalize("Song (feat. X (of Y)) Live"), "songlive");
    assert_eq!(normalize("a((b)(c))d(e)f"), "adf");
}

#[test]
fn normalize_takes_a_parenthesis_without_partner_as_a_character() {
    assert_eq!(normalize("((a)b"), "b");
    assert_eq!(normalize("(a(b)c"), "ac");
    assert_eq!(normalize("a)b(c)d"), "abd");
    assert_eq!(normalize("(a\n)b"), "ab");
}

#[test]
fn normalize_keeps_unmatched_parentheses_content() {
    assert_eq!(normalize("a)b(c"), "abc");
    assert_eq!(normalize("a(b"), "ab");
}

#[test]
fn normalize_drops_punctuation_and_white_space() {
    assert_eq!(normalize("Don't Stop  Believin'"), "dontstopbelievin");
    assert_eq!(normalize("  lots   of\tspace "), "lotsofspace");
}

#[test]
fn normalize_drops_letters_outside_ascii() {
    assert_eq!(normalize("\u{dc}n\u{ef}code 123"), "ncode123");
}

#[test]
fn normalize_never_cuts_across_a_line_break() {
    assert_eq!(normalize("ab-cd\nef"), "abef");
    assert_eq!(normalize("(a\n)b"), "ab");
    assert_eq!(normalize("line one - cut\nline two (gone) kept"), "lineonelinetwokept");
}

#[test]
fn normalize_of_nothing_is_nothing() {
    assert_eq!(normalize(""), "");
    assert_eq!(normalize("!!!"), "");
    assert_eq!(normalize("- all gone"), "");
}

#[test]
fn normalize_twice_is_normalize_once() {
    for raw in samples() {
        let once = normalize(raw);
        assert_eq!(normalize(&once), once, "input {:?}", raw);
    }
}

#[test]
fn normalize_agrees_with_the_patterns() {
    for raw in samples() {
        assert_eq!(normalize(raw), by_patterns(raw), "input {:?}", raw);
    }
}

#[test]
fn normalize_title_cuts_at_the_first_marker_word() {
    assert_eq!(normalize_title("Song feat. X"), "song");
    assert_eq!(normalize_title("Song ft. X"), "song");
    assert_eq!(normalize_title("some remix of it"), "some");
    assert_eq!(normalize_title("my edit"), "my");
    assert_eq!(normalize_title("a remix and an edit"), "a");
}

#[test]
fn normalize_title_reads_marker_words_as_spelled() {
    assert_eq!(normalize_title("Some Remix"), "someremix");
    assert_eq!(normalize_title("Credit"), "cr");
    assert_eq!(normalize_title("feat X"), "featx");
}

#[test]
fn normalize_title_cuts_dash_and_parentheses_first() {
    assert_eq!(normalize_title("Song (remix) two"), "songtwo");
    assert_eq!(normalize_title("Song - remix"), "song");
    assert_eq!(normalize_title("Plain Title"), normalize("Plain Title"));
}

#[test]
fn strip_punct_takes_out_the_artist_punctuation_only() {
    assert_eq!(strip_punct("AC/DC"), "ACDC");
    assert_eq!(strip_punct("Earth, Wind & Fire"), "Earth, Wind  Fire");
    assert_eq!(strip_punct("&#/\\:*?\"<>|"), "");
    assert_eq!(strip_punct("a-b.c d"), "a-b.c d");
}

#[test]
fn chars_and_strings_convert_back_and_forth() {
    let v = chars_of("h\u{e9}llo");
    assert_eq!(v, vec!['h', '\u{e9}', 'l', 'l', 'o']);
    assert_eq!(string_of(&v), "h\u{e9}llo");
    assert_eq!(string_of(&Vec::new()), "");
}

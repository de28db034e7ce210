use song_quiz::util::util::{get_id_from_url, validate_url};

fn samples() -> Vec<&'static str> {
    vec![
        "https://open.spotify.com/playlist/37i9dQZF1DXcBWIGoYBM5M?si=abc123",
        "https://open.spotify.com/playlist/37i9dQZF1DXcBWIGoYBM5M",
        "spotify.com/playlist/abc?x?y",
        "spotify.com/playlist/?",
        "/playlist/abc?",
        "",
    ]
}

#[test]
fn a_pasted_address_gives_its_identifier_with_or_without_a_query() {
    assert_eq!(
        get_id_from_url("https://open.spotify.com/playlist/37i9dQZF1DXcBWIGoYBM5M?si=abc123"),
        "37i9dQZF1DXcBWIGoYBM5M"
    );
    assert_eq!(
        get_id_from_url("https://open.spotify.com/playlist/37i9dQZF1DXcBWIGoYBM5M"),
        "37i9dQZF1DXcBWIGoYBM5M"
    );
    assert_eq!(get_id_from_url("spotify.com/playlist/abc?x?y"), "abc");
}

#[test]
fn both_modules_accept_the_same_addresses() {
    for url in samples() {
        assert_eq!(
            validate_url(&url.to_string()),
            song_quiz::spotify::spotify_api::validate_url(&url.to_string())
        );
    }
    assert!(validate_url(&"https://open.spotify.com/playlist/abc?si=1".to_string()));
    assert!(!validate_url(&"/playlist/abc?".to_string()));
}

use enigma::json::{JsonKind, JsonNumber, JsonValue};
use enigma::sport::{
    arrange_liked_output, arrange_playlist_output, arrange_tracks_output, callback_params,
    client_credentials, data_prompt, exchange_code_request, extract_body,
    find_playlist_id_by_name, get_auth_url, get_current_user, get_liked_songs,
    get_playlist_tracks, get_user_playlists, intent_prompt, read_response,
    refresh_token_request, search_tracks_in_response, spotify_intent, spotify_reply,
    token_request, SavedTokens, SpotifyIntent, TokenResponse, INTENT_RULES,
};

fn s(v: &str) -> JsonValue {
    JsonValue { kind: JsonKind::Str(v.to_string()), text: format!("\"{}\"", v) }
}

fn n(v: u64) -> JsonValue {
    JsonValue { kind: JsonKind::Number(JsonNumber::PosInt(v)), text: v.to_string() }
}

fn null() -> JsonValue {
    JsonValue { kind: JsonKind::Null, text: "null".to_string() }
}

fn arr(items: Vec<JsonValue>) -> JsonValue {
    let text = format!(
        "[{}]",
        items.iter().map(|i| i.text.clone()).collect::<Vec<_>>().join(",")
    );
    JsonValue { kind: JsonKind::Array(items), text }
}

fn obj(members: Vec<(&str, JsonValue)>) -> JsonValue {
    let text = format!(
        "{{{}}}",
        members
            .iter()
            .map(|(k, v)| format!("\"{}\":{}", k, v.text))
            .collect::<Vec<_>>()
            .join(",")
    );
    JsonValue {
        kind: JsonKind::Object(members.into_iter().map(|(k, v)| (k.to_string(), v)).collect()),
        text,
    }
}

fn track(name: &str, artist: &str, album: &str, ms: u64) -> JsonValue {
    obj(vec![
        ("name", s(name)),
        ("artists", arr(vec![obj(vec![("name", s(artist))])])),
        ("album", obj(vec![("name", s(album))])),
        ("duration_ms", n(ms)),
    ])
}

#[test]
fn auth_url_form_encodes_redirect_and_scopes() {
    let url = get_auth_url("cid", "http://localhost:8888/callback", "st");
    assert_eq!(
        url,
        "https://accounts.spotify.com/authorize?client_id=cid&response_type=code\
         &redirect_uri=http%3A%2F%2Flocalhost%3A8888%2Fcallback\
         &scope=playlist-read-private+playlist-read-collaborative+user-library-read&state=st"
    );
}

#[test]
fn credentials_are_base64_of_id_and_secret() {
    assert_eq!(client_credentials("cid", "secret"), "Y2lkOnNlY3JldA==");
}

#[test]
fn exchange_request_carries_body_length() {
    let r = exchange_code_request("cid", "secret", "http://localhost:8888/callback", "abc");
    assert_eq!(r.host, "accounts.spotify.com");
    let body = "code=abc&redirect_uri=http%3A%2F%2Flocalhost%3A8888%2Fcallback&grant_type=authorization_code";
    let expected = format!(
        "POST /api/token HTTP/1.1\r\nHost: accounts.spotify.com\r\nAuthorization: Basic Y2lkOnNlY3JldA==\r\nContent-Type: application/x-www-form-urlencoded\r\nContent-Length: 92\r\nConnection: close\r\n\r\n{}",
        body
    );
    assert_eq!(r.text, expected);
}

#[test]
fn refresh_request_text() {
    let r = refresh_token_request("cid", "secret", "rt");
    assert_eq!(
        r.text,
        "POST /api/token HTTP/1.1\r\nHost: accounts.spotify.com\r\nAuthorization: Basic Y2lkOnNlY3JldA==\r\nContent-Type: application/x-www-form-urlencoded\r\nContent-Length: 41\r\nConnection: close\r\n\r\ngrant_type=refresh_token&refresh_token=rt"
    );
}

#[test]
fn token_request_counts_bytes_not_chars() {
    let r = token_request("c", "é");
    assert!(r.text.contains("Content-Length: 2\r\n"));
    assert!(r.text.ends_with("\r\n\r\né"));
}

#[test]
fn api_requests() {
    let p = get_user_playlists("tok");
    assert_eq!(p.host, "api.spotify.com");
    assert_eq!(
        p.text,
        "GET /v1/me/playlists?limit=50 HTTP/1.1\r\nHost: api.spotify.com\r\nAuthorization: Bearer tok\r\nConnection: close\r\n\r\n"
    );
    assert!(get_current_user("tok").text.starts_with("GET /v1/me HTTP/1.1\r\n"));
    assert!(get_liked_songs("tok").text.starts_with("GET /v1/me/tracks?limit=50 HTTP/1.1\r\n"));
    assert!(get_playlist_tracks("tok", "PL1")
        .text
        .starts_with("GET /v1/playlists/PL1/tracks?limit=50 HTTP/1.1\r\n"));
}

#[test]
fn body_after_blank_line() {
    assert_eq!(extract_body("HTTP/1.1 200 OK\r\nA: b\r\n\r\n{\"x\":1}"), "{\"x\":1}");
    assert_eq!(extract_body("no head end"), "");
    assert_eq!(extract_body("h\r\n\r\nbody\r\n\r\nmore"), "body\r\n\r\nmore");
}

#[test]
fn response_chunks_joined_and_decoded() {
    let chunks = vec![b"ab".to_vec(), vec![0xC3], vec![0xA9, b'!']];
    assert_eq!(read_response(&chunks), "abé!");
    let bad = vec![vec![b'a', 0xFF, b'b']];
    assert_eq!(read_response(&bad), "a\u{FFFD}b");
}

#[test]
fn playlists_listing() {
    let doc = obj(vec![
        (
            "items",
            arr(vec![
                obj(vec![
                    ("name", s("Mix")),
                    ("id", s("P1")),
                    ("tracks", obj(vec![("total", n(12))])),
                    ("owner", obj(vec![("display_name", s("Ann"))])),
                ]),
                obj(vec![]),
            ]),
        ),
        ("total", n(2)),
    ]);
    assert_eq!(
        arrange_playlist_output(&doc),
        "# Your Playlists (2 total)\n1. **Mix** | `ID: P1` | Tracks: 12 | Owner: Ann\n2. **Unknown** | `ID: Unknown` | Tracks: 0 | Owner: Unknown\n"
    );
    assert_eq!(arrange_playlist_output(&obj(vec![])), "");
}

#[test]
fn playlists_listing_without_total_shows_null() {
    let doc = obj(vec![("items", arr(vec![]))]);
    assert_eq!(arrange_playlist_output(&doc), "# Your Playlists (null total)\n");
}

#[test]
fn liked_listing_formats_durations() {
    let doc = obj(vec![
        ("items", arr(vec![obj(vec![("track", track("Song", "Art", "Alb", 185_000))])])),
        ("total", n(1)),
    ]);
    assert_eq!(
        arrange_liked_output(&doc),
        "# Liked Songs (1 total)\n1. **Song** - *Art* | Album: Alb | 3:05\n"
    );
}

#[test]
fn tracks_listing_picks_track_item_or_entry() {
    let doc = obj(vec![(
        "items",
        arr(vec![
            obj(vec![("track", track("A", "X", "Y", 61_000))]),
            obj(vec![("track", null()), ("item", track("B", "Z", "W", 0))]),
            track("C", "Q", "R", 600_000),
        ]),
    )]);
    assert_eq!(
        arrange_tracks_output(&doc),
        "## Tracks Found\n1. **A** - *X* | Album: Y | 1:01\n2. **B** - *Z* | Album: W | 0:00\n3. **C** - *Q* | Album: R | 10:00\n"
    );
}

#[test]
fn tracks_listing_reports_error() {
    let doc = obj(vec![("error", obj(vec![("status", n(401)), ("message", s("bad token"))]))]);
    assert_eq!(arrange_tracks_output(&doc), "Error: \"bad token\"");
}

#[test]
fn search_matches_name_or_artist_case_insensitively() {
    let doc = obj(vec![(
        "items",
        arr(vec![
            obj(vec![("track", track("Thriller", "Michael", "T", 1))]),
            obj(vec![("track", track("Other", "Someone", "T", 1))]),
            obj(vec![("track", track("Beat", "THRILL band", "T", 1))]),
        ]),
    )]);
    assert_eq!(
        search_tracks_in_response(&doc, "Thrill"),
        "## Results for 'thrill'\n1. **Thriller** - *Michael*\n2. **Beat** - *THRILL band*\n"
    );
    assert_eq!(
        search_tracks_in_response(&doc, "nothing"),
        "## Results for 'nothing'\nNo matches found."
    );
    assert_eq!(search_tracks_in_response(&obj(vec![]), "x"), "");
}

#[test]
fn playlist_found_by_part_of_name() {
    let doc = obj(vec![(
        "items",
        arr(vec![
            obj(vec![("name", s("Road Trip")), ("id", s("R1"))]),
            obj(vec![("name", s("My 80s Mix")), ("id", s("M80"))]),
        ]),
    )]);
    assert_eq!(find_playlist_id_by_name(&doc, "80S MIX"), Some("M80".to_string()));
    assert_eq!(find_playlist_id_by_name(&doc, "jazz"), None);
}

#[test]
fn playlist_search_stops_at_entry_without_name() {
    let doc = obj(vec![(
        "items",
        arr(vec![obj(vec![("id", s("N"))]), obj(vec![("name", s("Jazz")), ("id", s("J"))])]),
    )]);
    assert_eq!(find_playlist_id_by_name(&doc, "jazz"), None);
}

#[test]
fn intents_read_from_reply() {
    assert!(matches!(
        spotify_intent(&obj(vec![("intent", s("LIST_PLAYLISTS"))])),
        SpotifyIntent::ListPlaylists
    ));
    assert!(matches!(spotify_intent(&obj(vec![])), SpotifyIntent::Unknown));
    match spotify_intent(&obj(vec![
        ("intent", s("SEARCH_IN_PLAYLIST")),
        ("playlist", s("Mix")),
        ("query", s("Thriller")),
    ])) {
        SpotifyIntent::PlaylistTracks { playlist, query, search } => {
            assert_eq!(playlist, "Mix");
            assert_eq!(query, "Thriller");
            assert!(search);
        }
        _ => panic!("expected a playlist intent"),
    }
}

#[test]
fn reply_with_follow_up() {
    let doc = obj(vec![
        ("content", s("Here")),
        (
            "next_action",
            obj(vec![
                ("intent", s("LIST_TRACKS")),
                ("playlist_id", s("P9")),
            ]),
        ),
    ]);
    let r = spotify_reply(&doc);
    assert_eq!(r.content, Some("Here".to_string()));
    let f = r.follow_up.unwrap();
    assert_eq!(f.playlist_id, "P9");
    assert_eq!(f.query, "");
    assert!(!f.search);
    let none = spotify_reply(&obj(vec![("next_action", null())]));
    assert!(none.content.is_none() && none.follow_up.is_none());
}

#[test]
fn prompts_for_the_model() {
    assert_eq!(intent_prompt("x"), format!("{}\nUser Request: x", INTENT_RULES));
    assert_eq!(data_prompt("p", "d"), "USER PROMPT: p\n\nSPOTIFY DATA:\nd");
}

#[test]
fn callback_query_last_value_wins() {
    assert_eq!(
        callback_params("/callback?code=a&state=s&code=b"),
        Some(("b".to_string(), "s".to_string()))
    );
    assert_eq!(callback_params("/callback"), Some((String::new(), String::new())));
    assert_eq!(
        callback_params("/callback?state=x=y?code=ignored"),
        Some((String::new(), "x=y".to_string()))
    );
    assert_eq!(callback_params("/favicon.ico"), None);
}

#[test]
fn saved_tokens_keep_old_refresh() {
    let first = SavedTokens::from_exchange(TokenResponse {
        access_token: "a1".to_string(),
        refresh_token: Some("r1".to_string()),
    })
    .unwrap();
    let next = first.refreshed(TokenResponse { access_token: "a2".to_string(), refresh_token: None });
    assert_eq!(next.access_token, "a2");
    assert_eq!(next.refresh_token, "r1");
    assert!(SavedTokens::from_exchange(TokenResponse {
        access_token: "a".to_string(),
        refresh_token: None
    })
    .is_none());
}

//! Spotify integration: the HTTPS requests the assistant sends to the Web API
//! and the accounts service, the OAuth authorisation link and callback
//! handling, the formatting of API responses as Markdown, and the decisions
//! taken on the AI's interpretation of a Spotify request.
//!
//! Sockets, TLS and the local callback server live with the caller: it sends
//! the `HttpsRequest` values built here, hands back what it read, and acts on
//! the decisions returned.

use vstd::prelude::*;
use vstd::string::*;
use vstd::utf8::{decode_utf8, encode_utf8, valid_utf8};
use crate::text::{decode_lossy, utf8_lossy};
use crate::text::{
    chars_eq_str, contains, contains_str, decimal, decimal2, decimal2_chars, decimal_chars, extend_chars,
    extend_str, find, find_char, find_str, from_chars, has_prefix_str, lemma_find_from, lowercase, occurs_at,
    slice_chars, split_char, split_on, starts_with, to_chars, to_lowercase, trim, trim_chars, views,
};
use crate::json::{
    as_array, as_str, at_index, at_key, check_null, check_object, display, display_text, get,
    get_array, get_str, get_str_or, get_u64_or, index, is_null, is_object, opt, str_or, u64_or,
    JsonValue,
};

verus! {

// ───────────────────────── constants ─────────────────────────

/// Host of the Spotify Web API.
pub const API_HOST: &'static str = "api.spotify.com";

/// Host of the Spotify accounts service (authorisation and tokens).
pub const ACCOUNTS_HOST: &'static str = "accounts.spotify.com";

/// The scopes the assistant asks the user to grant.
pub const AUTH_SCOPES: &'static str = "playlist-read-private playlist-read-collaborative user-library-read";

/// File in which the session tokens are kept between runs.
pub const TOKEN_FILE: &'static str = "tokens.json";

/// The separator between an HTTP head and its body.
pub const HEAD_END: &'static str = "\r\n\r\n";

// ───────────────────────── types ─────────────────────────

/// A request to send over TLS to `host` on port 443.
pub struct HttpsRequest {
    pub host: String,
    pub text: String,
}

/// What the token endpoint answers.
pub struct TokenResponse {
    pub access_token: String,
    pub refresh_token: Option<String>,
}

/// The tokens kept in `TOKEN_FILE`.
pub struct SavedTokens {
    pub access_token: String,
    pub refresh_token: String,
}

// ───────────────────────── trusted outside calls ─────────────────────────

/// The base64 digit for a 6-bit value (standard alphabet).
pub open spec fn b64_digit(v: int) -> char {
    if v < 26 {
        (65 + v) as char
    } else if v < 52 {
        (97 + v - 26) as char
    } else if v < 62 {
        (48 + v - 52) as char
    } else if v == 62 {
        '+'
    } else {
        '/'
    }
}

/// Standard base64 with padding: every three bytes become four digits, and
/// a final one or two bytes become two or three digits padded with `=`.
pub open spec fn base64_standard(bytes: Seq<u8>) -> Seq<char>
    decreases bytes.len(),
{
    if bytes.len() == 0 {
        Seq::empty()
    } else if bytes.len() == 1 {
        let a = bytes[0] as int;
        seq![b64_digit(a / 4), b64_digit((a % 4) * 16), '=', '=']
    } else if bytes.len() == 2 {
        let a = bytes[0] as int;
        let b = bytes[1] as int;
        seq![b64_digit(a / 4), b64_digit((a % 4) * 16 + b / 16), b64_digit((b % 16) * 4), '=']
    } else {
        let a = bytes[0] as int;
        let b = bytes[1] as int;
        let c = bytes[2] as int;
        seq![
            b64_digit(a / 4),
            b64_digit((a % 4) * 16 + b / 16),
            b64_digit((b % 16) * 4 + c / 64),
            b64_digit(c % 64),
        ] + base64_standard(bytes.skip(3))
    }
}

/// `base64::engine::general_purpose::STANDARD.encode`: the standard
/// alphabet with padding, as `base64_standard` spells out. The engine panics
/// when the encoded length overflows `usize`, which the bound rules out.
#[verifier::external_body]
fn base64_encode(bytes: &[u8]) -> (r: String)
    requires
        bytes@.len() <= usize::MAX / 2,
    ensures
        r@ == base64_standard(bytes@),
{
    base64::Engine::encode(&base64::engine::general_purpose::STANDARD, bytes)
}

/// The bytes `form_urlencoded::byte_serialize` keeps as they are.
pub open spec fn form_unchanged(b: u8) -> bool {
    ||| b == 0x2A
    ||| b == 0x2D
    ||| b == 0x2E
    ||| 0x30 <= b <= 0x39
    ||| 0x41 <= b <= 0x5A
    ||| b == 0x5F
    ||| 0x61 <= b <= 0x7A
}

/// Upper-case hexadecimal digit for `d < 16`.
pub open spec fn hex_upper(d: u8) -> char {
    if d < 10 {
        (0x30 + d) as char
    } else {
        (0x41 + d - 10) as char
    }
}

/// How `byte_serialize` writes one byte: unchanged, `+` for a space, else
/// `%XX` with upper-case hex digits.
pub open spec fn form_byte(b: u8) -> Seq<char> {
    if form_unchanged(b) {
        seq![b as char]
    } else if b == 0x20 {
        seq!['+']
    } else {
        seq!['%', hex_upper(b / 16), hex_upper(b % 16)]
    }
}

/// The `application/x-www-form-urlencoded` serialisation of `bytes`.
pub open spec fn form_urlencoded(bytes: Seq<u8>) -> Seq<char>
    decreases bytes.len(),
{
    if bytes.len() == 0 {
        Seq::empty()
    } else {
        form_urlencoded(bytes.drop_last()) + form_byte(bytes.last())
    }
}

/// `url::form_urlencoded::byte_serialize`, collected into a `String`: each
/// byte written as `form_byte` says.
#[verifier::external_body]
fn form_urlencode(bytes: &[u8]) -> (r: String)
    ensures
        r@ == form_urlencoded(bytes@),
{
    url::form_urlencoded::byte_serialize(bytes).collect::<String>()
}

// ───────────────────────── responses ─────────────────────────

/// The body of an HTTP response: what follows the first blank line, or
/// nothing when there is none.
pub open spec fn body_of(response: Seq<char>) -> Seq<char> {
    match find(response, HEAD_END@) {
        Some(i) => response.skip((i + 4) as int),
        None => Seq::empty(),
    }
}

/// The body of an HTTP response text.
pub fn extract_body(response: &str) -> (r: &str)
    ensures
        r@ == body_of(response@),
{
    let v = to_chars(response);
    let n = response.unicode_len();
    match find_str(&v, HEAD_END) {
        Some(i) => {
            proof {
                reveal_strlit("\r\n\r\n");
                lemma_find_from(response@, HEAD_END@, 0);
            }
            response.substring_char(i + 4, n)
        },
        None => response.substring_char(0, 0),
    }
}

/// The bytes of the chunks, in order.
pub open spec fn concat_bytes(chunks: Seq<Seq<u8>>) -> Seq<u8>
    decreases chunks.len(),
{
    if chunks.len() == 0 {
        Seq::empty()
    } else {
        concat_bytes(chunks.drop_last()) + chunks.last()
    }
}

/// The views of byte vectors.
pub open spec fn byte_views(chunks: Seq<Vec<u8>>) -> Seq<Seq<u8>> {
    chunks.map_values(|c: Vec<u8>| c@)
}

/// The text of a response read in chunks: the chunks joined and decoded as
/// UTF-8, invalid sequences replaced.
pub fn read_response(chunks: &Vec<Vec<u8>>) -> (r: String)
    ensures
        r@ == utf8_lossy(concat_bytes(byte_views(chunks@))),
        valid_utf8(concat_bytes(byte_views(chunks@))) ==> r@ == decode_utf8(
            concat_bytes(byte_views(chunks@)),
        ),
{
    let mut all: Vec<u8> = Vec::new();
    let n = chunks.len();
    let ghost cv = byte_views(chunks@);
    for i in 0..n
        invariant
            n == chunks@.len(),
            cv == byte_views(chunks@),
            all@ == concat_bytes(cv.take(i as int)),
    {
        let c = &chunks[i];
        let m = c.len();
        let ghost before = all@;
        for j in 0..m
            invariant
                m == c@.len(),
                all@ == before + c@.take(j as int),
        {
            all.push(c[j]);
            assert(c@.take(j + 1) =~= c@.take(j as int).push(c@[j as int]));
        }
        assert(c@.take(m as int) =~= c@);
        assert(cv.take(i + 1).drop_last() =~= cv.take(i as int));
    }
    assert(cv.take(n as int) =~= cv);
    decode_lossy(all.as_slice())
}

// ───────────────────────── requests ─────────────────────────

/// An authorised GET of `path` on the Web API.
pub open spec fn api_get_text(path: Seq<char>, token: Seq<char>) -> Seq<char> {
    "GET "@ + path + " HTTP/1.1\r\nHost: "@ + API_HOST@ + "\r\nAuthorization: Bearer "@ + token
        + "\r\nConnection: close\r\n\r\n"@
}

fn api_get(path: &Vec<char>, token: &str) -> (r: HttpsRequest)
    ensures
        r.host@ == API_HOST@,
        r.text@ == api_get_text(path@, token@),
{
    let mut t: Vec<char> = Vec::new();
    extend_str(&mut t, "GET ");
    extend_chars(&mut t, path);
    extend_str(&mut t, " HTTP/1.1\r\nHost: ");
    extend_str(&mut t, API_HOST);
    extend_str(&mut t, "\r\nAuthorization: Bearer ");
    extend_str(&mut t, token);
    extend_str(&mut t, "\r\nConnection: close\r\n\r\n");
    HttpsRequest { host: API_HOST.to_owned(), text: from_chars(&t) }
}

/// The request for the user's playlists (first 50).
pub fn get_user_playlists(token: &str) -> (r: HttpsRequest)
    ensures
        r.host@ == API_HOST@,
        r.text@ == api_get_text("/v1/me/playlists?limit=50"@, token@),
{
    let p = to_chars("/v1/me/playlists?limit=50");
    api_get(&p, token)
}

/// The request for the current user's profile.
pub fn get_current_user(token: &str) -> (r: HttpsRequest)
    ensures
        r.host@ == API_HOST@,
        r.text@ == api_get_text("/v1/me"@, token@),
{
    let p = to_chars("/v1/me");
    api_get(&p, token)
}

/// The path of a playlist's tracks (first 50).
pub open spec fn playlist_tracks_path(playlist_id: Seq<char>) -> Seq<char> {
    "/v1/playlists/"@ + playlist_id + "/tracks?limit=50"@
}

/// The request for the tracks of a playlist (first 50).
pub fn get_playlist_tracks(token: &str, playlist_id: &str) -> (r: HttpsRequest)
    ensures
        r.host@ == API_HOST@,
        r.text@ == api_get_text(playlist_tracks_path(playlist_id@), token@),
{
    let mut p: Vec<char> = Vec::new();
    extend_str(&mut p, "/v1/playlists/");
    extend_str(&mut p, playlist_id);
    extend_str(&mut p, "/tracks?limit=50");
    api_get(&p, token)
}

/// The request for the user's liked songs (first 50).
pub fn get_liked_songs(token: &str) -> (r: HttpsRequest)
    ensures
        r.host@ == API_HOST@,
        r.text@ == api_get_text("/v1/me/tracks?limit=50"@, token@),
{
    let p = to_chars("/v1/me/tracks?limit=50");
    api_get(&p, token)
}

/// A form POST to the token endpoint with Basic credentials.
pub open spec fn token_request_text(credentials: Seq<char>, body: Seq<char>) -> Seq<char> {
    "POST /api/token HTTP/1.1\r\nHost: "@ + ACCOUNTS_HOST@ + "\r\nAuthorization: Basic "@
        + credentials
        + "\r\nContent-Type: application/x-www-form-urlencoded\r\nContent-Length: "@ + decimal(
        encode_utf8(body).len(),
    ) + "\r\nConnection: close\r\n\r\n"@ + body
}

/// The token-endpoint request carrying `body`, authorised by the encoded
/// `credentials`; its `Content-Length` is the body's length in bytes.
pub fn token_request(credentials: &str, body: &str) -> (r: HttpsRequest)
    ensures
        r.host@ == ACCOUNTS_HOST@,
        r.text@ == token_request_text(credentials@, body@),
{
    let len = body.as_bytes().len();
    let mut t: Vec<char> = Vec::new();
    extend_str(&mut t, "POST /api/token HTTP/1.1\r\nHost: ");
    extend_str(&mut t, ACCOUNTS_HOST);
    extend_str(&mut t, "\r\nAuthorization: Basic ");
    extend_str(&mut t, credentials);
    extend_str(&mut t, "\r\nContent-Type: application/x-www-form-urlencoded\r\nContent-Length: ");
    let digits = decimal_chars(len as u64);
    extend_chars(&mut t, &digits);
    extend_str(&mut t, "\r\nConnection: close\r\n\r\n");
    extend_str(&mut t, body);
    HttpsRequest { host: ACCOUNTS_HOST.to_owned(), text: from_chars(&t) }
}

/// `client_id:client_secret`, the text the Basic credentials encode.
pub open spec fn credential_text(client_id: Seq<char>, client_secret: Seq<char>) -> Seq<char> {
    client_id.push(':') + client_secret
}

/// The Basic credentials of the client: its id and secret, joined by `:` and
/// base64-encoded.
pub fn client_credentials(client_id: &str, client_secret: &str) -> (r: String)
    requires
        encode_utf8(credential_text(client_id@, client_secret@)).len() <= usize::MAX / 2,
    ensures
        r@ == base64_standard(encode_utf8(credential_text(client_id@, client_secret@))),
{
    let mut t: Vec<char> = Vec::new();
    extend_str(&mut t, client_id);
    t.push(':');
    extend_str(&mut t, client_secret);
    let s = from_chars(&t);
    assert(s@ == credential_text(client_id@, client_secret@));
    base64_encode(s.as_str().as_bytes())
}

/// The form body that trades an authorisation code for tokens.
pub open spec fn exchange_body(code: Seq<char>, redirect_uri: Seq<char>) -> Seq<char> {
    "code="@ + code + "&redirect_uri="@ + form_urlencoded(encode_utf8(redirect_uri))
        + "&grant_type=authorization_code"@
}

/// The request that trades the authorisation `code` for tokens.
pub fn exchange_code_request(
    client_id: &str,
    client_secret: &str,
    redirect_uri: &str,
    code: &str,
) -> (r: HttpsRequest)
    requires
        encode_utf8(credential_text(client_id@, client_secret@)).len() <= usize::MAX / 2,
    ensures
        r.host@ == ACCOUNTS_HOST@,
        r.text@ == token_request_text(
            base64_standard(encode_utf8(credential_text(client_id@, client_secret@))),
            exchange_body(code@, redirect_uri@),
        ),
{
    let credentials = client_credentials(client_id, client_secret);
    let redirect = form_urlencode(redirect_uri.as_bytes());
    let mut b: Vec<char> = Vec::new();
    extend_str(&mut b, "code=");
    extend_str(&mut b, code);
    extend_str(&mut b, "&redirect_uri=");
    extend_str(&mut b, redirect.as_str());
    extend_str(&mut b, "&grant_type=authorization_code");
    let body = from_chars(&b);
    token_request(credentials.as_str(), body.as_str())
}

/// The form body that asks for a fresh access token.
pub open spec fn refresh_body(refresh_token: Seq<char>) -> Seq<char> {
    "grant_type=refresh_token&refresh_token="@ + refresh_token
}

/// The request that trades a refresh token for a fresh access token.
pub fn refresh_token_request(client_id: &str, client_secret: &str, refresh_token: &str) -> (r:
    HttpsRequest)
    requires
        encode_utf8(credential_text(client_id@, client_secret@)).len() <= usize::MAX / 2,
    ensures
        r.host@ == ACCOUNTS_HOST@,
        r.text@ == token_request_text(
            base64_standard(encode_utf8(credential_text(client_id@, client_secret@))),
            refresh_body(refresh_token@),
        ),
{
    let credentials = client_credentials(client_id, client_secret);
    let mut b: Vec<char> = Vec::new();
    extend_str(&mut b, "grant_type=refresh_token&refresh_token=");
    extend_str(&mut b, refresh_token);
    let body = from_chars(&b);
    token_request(credentials.as_str(), body.as_str())
}

/// The authorisation link the user opens to grant the assistant access.
pub open spec fn auth_url_text(client_id: Seq<char>, redirect_uri: Seq<char>, state: Seq<char>) -> Seq<
    char,
> {
    "https://accounts.spotify.com/authorize?client_id="@ + client_id
        + "&response_type=code&redirect_uri="@ + form_urlencoded(encode_utf8(redirect_uri))
        + "&scope="@ + form_urlencoded(encode_utf8(AUTH_SCOPES@)) + "&state="@ + state
}

/// The authorisation link for the client, its redirect URI and the state.
pub fn get_auth_url(client_id: &str, redirect_uri: &str, state: &str) -> (r: String)
    ensures
        r@ == auth_url_text(client_id@, redirect_uri@, state@),
{
    let redirect = form_urlencode(redirect_uri.as_bytes());
    let scopes = form_urlencode(AUTH_SCOPES.as_bytes());
    let mut t: Vec<char> = Vec::new();
    extend_str(&mut t, "https://accounts.spotify.com/authorize?client_id=");
    extend_str(&mut t, client_id);
    extend_str(&mut t, "&response_type=code&redirect_uri=");
    extend_str(&mut t, redirect.as_str());
    extend_str(&mut t, "&scope=");
    extend_str(&mut t, scopes.as_str());
    extend_str(&mut t, "&state=");
    extend_str(&mut t, state);
    from_chars(&t)
}

// ───────────────────────── formatting API responses ─────────────────────────

/// Appends the decimal digits of `n`.
fn push_decimal(t: &mut Vec<char>, n: u64)
    ensures
        final(t)@ == old(t)@ + decimal(n as nat),
{
    let d = decimal_chars(n);
    extend_chars(t, &d);
}

/// One playlist as a numbered Markdown entry (`i` counts from zero).
pub open spec fn playlist_line(i: int, item: JsonValue) -> Seq<char> {
    let it = Some(item);
    decimal((i + 1) as nat) + ". **"@ + str_or(it, "name"@, "Unknown"@) + "** | `ID: "@ + str_or(
        it,
        "id"@,
        "Unknown"@,
    ) + "` | Tracks: "@ + decimal(u64_or(at_key(it, "tracks"@), "total"@, 0) as nat)
        + " | Owner: "@ + str_or(at_key(it, "owner"@), "display_name"@, "Unknown"@) + "\n"@
}

/// The entries of the first `n` playlists.
pub open spec fn playlist_lines(items: Seq<JsonValue>, n: nat) -> Seq<char>
    decreases n,
{
    if n == 0 {
        Seq::empty()
    } else {
        playlist_lines(items, (n - 1) as nat) + playlist_line(n - 1, items[n - 1])
    }
}

/// The playlist listing: a header with the total, then one entry per item;
/// nothing when the document has no `items` array.
pub open spec fn playlist_output(parsed: JsonValue) -> Seq<char> {
    let root = Some(parsed);
    match as_array(at_key(root, "items"@)) {
        Some(items) => "# Your Playlists ("@ + display(at_key(root, "total"@)) + " total)\n"@
            + playlist_lines(items, items.len()),
        None => Seq::empty(),
    }
}

fn playlist_line_chars(i: usize, item: &JsonValue) -> (r: Vec<char>)
    requires
        i < usize::MAX,
    ensures
        r@ == playlist_line(i as int, *item),
{
    let it = Some(item);
    let mut t: Vec<char> = Vec::new();
    push_decimal(&mut t, (i + 1) as u64);
    extend_str(&mut t, ". **");
    extend_str(&mut t, get_str_or(it, "name", "Unknown"));
    extend_str(&mut t, "** | `ID: ");
    extend_str(&mut t, get_str_or(it, "id", "Unknown"));
    extend_str(&mut t, "` | Tracks: ");
    push_decimal(&mut t, get_u64_or(get(it, "tracks"), "total", 0));
    extend_str(&mut t, " | Owner: ");
    extend_str(&mut t, get_str_or(get(it, "owner"), "display_name", "Unknown"));
    extend_str(&mut t, "\n");
    t
}

/// Formats the user's playlists (the parsed `/v1/me/playlists` answer).
pub fn arrange_playlist_output(parsed: &JsonValue) -> (r: String)
    ensures
        r@ == playlist_output(*parsed),
{
    let root = Some(parsed);
    let mut out: Vec<char> = Vec::new();
    match get_array(get(root, "items")) {
        None => {},
        Some(items) => {
            extend_str(&mut out, "# Your Playlists (");
            let total = display_text(get(root, "total"));
            extend_str(&mut out, total.as_str());
            extend_str(&mut out, " total)\n");
            let ghost head = out@;
            let n = items.len();
            for i in 0..n
                invariant
                    n == items@.len(),
                    out@ == head + playlist_lines(items@, i as nat),
            {
                let line = playlist_line_chars(i, &items[i]);
                extend_chars(&mut out, &line);
                assert(head + playlist_lines(items@, (i + 1) as nat) =~= head + playlist_lines(
                    items@,
                    i as nat,
                ) + line@);
            }
        },
    }
    from_chars(&out)
}

/// A track's length as `minutes:seconds`, seconds on two digits.
pub open spec fn duration_text(ms: u64) -> Seq<char> {
    decimal((ms / 1000 / 60) as nat) + ":"@ + decimal2((ms / 1000 % 60) as nat)
}

/// One track as a numbered Markdown entry (`i` counts from zero).
pub open spec fn track_line(i: int, track: Option<JsonValue>) -> Seq<char> {
    decimal((i + 1) as nat) + ". **"@ + str_or(track, "name"@, "Unknown"@) + "** - *"@ + str_or(
        at_index(at_key(track, "artists"@), 0),
        "name"@,
        "Unknown"@,
    ) + "* | Album: "@ + str_or(at_key(track, "album"@), "name"@, "Unknown"@) + " | "@
        + duration_text(u64_or(track, "duration_ms"@, 0)) + "\n"@
}

fn track_line_chars(i: usize, track: Option<&JsonValue>) -> (r: Vec<char>)
    requires
        i < usize::MAX,
    ensures
        r@ == track_line(i as int, opt(track)),
{
    let mut t: Vec<char> = Vec::new();
    push_decimal(&mut t, (i + 1) as u64);
    extend_str(&mut t, ". **");
    extend_str(&mut t, get_str_or(track, "name", "Unknown"));
    extend_str(&mut t, "** - *");
    extend_str(&mut t, get_str_or(index(get(track, "artists"), 0), "name", "Unknown"));
    extend_str(&mut t, "* | Album: ");
    extend_str(&mut t, get_str_or(get(track, "album"), "name", "Unknown"));
    extend_str(&mut t, " | ");
    let ms = get_u64_or(track, "duration_ms", 0);
    push_decimal(&mut t, ms / 1000 / 60);
    extend_str(&mut t, ":");
    let secs = decimal2_chars(ms / 1000 % 60);
    extend_chars(&mut t, &secs);
    extend_str(&mut t, "\n");
    t
}

/// The entries of the first `n` liked songs (each item wraps a `track`).
pub open spec fn liked_lines(items: Seq<JsonValue>, n: nat) -> Seq<char>
    decreases n,
{
    if n == 0 {
        Seq::empty()
    } else {
        liked_lines(items, (n - 1) as nat) + track_line(
            n - 1,
            at_key(Some(items[n - 1]), "track"@),
        )
    }
}

/// The liked-songs listing: a header with the total, then one entry per item;
/// nothing when the document has no `items` array.
pub open spec fn liked_output(parsed: JsonValue) -> Seq<char> {
    let root = Some(parsed);
    match as_array(at_key(root, "items"@)) {
        Some(items) => "# Liked Songs ("@ + display(at_key(root, "total"@)) + " total)\n"@
            + liked_lines(items, items.len()),
        None => Seq::empty(),
    }
}

/// Formats the user's liked songs (the parsed `/v1/me/tracks` answer).
pub fn arrange_liked_output(parsed: &JsonValue) -> (r: String)
    ensures
        r@ == liked_output(*parsed),
{
    let root = Some(parsed);
    let mut out: Vec<char> = Vec::new();
    match get_array(get(root, "items")) {
        None => {},
        Some(items) => {
            extend_str(&mut out, "# Liked Songs (");
            let total = display_text(get(root, "total"));
            extend_str(&mut out, total.as_str());
            extend_str(&mut out, " total)\n");
            let ghost head = out@;
            let n = items.len();
            for i in 0..n
                invariant
                    n == items@.len(),
                    out@ == head + liked_lines(items@, i as nat),
            {
                let line = track_line_chars(i, get(Some(&items[i]), "track"));
                extend_chars(&mut out, &line);
                assert(head + liked_lines(items@, (i + 1) as nat) =~= head + liked_lines(
                    items@,
                    i as nat,
                ) + line@);
            }
        },
    }
    from_chars(&out)
}

/// The track an entry of a tracks listing describes: its `track` or `item`
/// object when it has one, else the entry itself.
pub open spec fn track_of(item: JsonValue) -> Option<JsonValue> {
    let t = at_key(Some(item), "track"@);
    let u = at_key(Some(item), "item"@);
    if !is_null(t) && is_object(t) {
        t
    } else if !is_null(u) && is_object(u) {
        u
    } else {
        Some(item)
    }
}

/// The entries of the first `n` tracks of a listing.
pub open spec fn tracks_lines(items: Seq<JsonValue>, n: nat) -> Seq<char>
    decreases n,
{
    if n == 0 {
        Seq::empty()
    } else {
        tracks_lines(items, (n - 1) as nat) + track_line(n - 1, track_of(items[n - 1]))
    }
}

/// The tracks listing: the API's error message when the document carries an
/// `error`, else a header and one entry per item (nothing without `items`).
pub open spec fn tracks_output(parsed: JsonValue) -> Seq<char> {
    let root = Some(parsed);
    if at_key(root, "error"@) is Some {
        "Error: "@ + display(at_key(at_key(root, "error"@), "message"@))
    } else {
        match as_array(at_key(root, "items"@)) {
            Some(items) => "## Tracks Found\n"@ + tracks_lines(items, items.len()),
            None => Seq::empty(),
        }
    }
}

fn track_of_exec(item: &JsonValue) -> (r: Option<&JsonValue>)
    ensures
        opt(r) == track_of(*item),
{
    let t = get(Some(item), "track");
    let u = get(Some(item), "item");
    if !check_null(t) && check_object(t) {
        t
    } else if !check_null(u) && check_object(u) {
        u
    } else {
        Some(item)
    }
}

/// Formats the tracks of a playlist (the parsed `/v1/playlists/{id}/tracks`
/// answer).
pub fn arrange_tracks_output(parsed: &JsonValue) -> (r: String)
    ensures
        r@ == tracks_output(*parsed),
{
    let root = Some(parsed);
    let err = get(root, "error");
    if err.is_some() {
        let msg = display_text(get(err, "message"));
        let mut out: Vec<char> = Vec::new();
        extend_str(&mut out, "Error: ");
        extend_str(&mut out, msg.as_str());
        return from_chars(&out);
    }
    let mut out: Vec<char> = Vec::new();
    match get_array(get(root, "items")) {
        None => {},
        Some(items) => {
            extend_str(&mut out, "## Tracks Found\n");
            let ghost head = out@;
            let n = items.len();
            for i in 0..n
                invariant
                    n == items@.len(),
                    out@ == head + tracks_lines(items@, i as nat),
            {
                let line = track_line_chars(i, track_of_exec(&items[i]));
                extend_chars(&mut out, &line);
                assert(head + tracks_lines(items@, (i + 1) as nat) =~= head + tracks_lines(
                    items@,
                    i as nat,
                ) + line@);
            }
        },
    }
    from_chars(&out)
}

// ───────────────────────── searching ─────────────────────────

/// The track an entry of a search describes: its `track` unless that is null.
pub open spec fn search_track(item: JsonValue) -> Option<JsonValue> {
    let t = at_key(Some(item), "track"@);
    if !is_null(t) {
        t
    } else {
        Some(item)
    }
}

/// The searched track's name (empty when missing).
pub open spec fn search_name(item: JsonValue) -> Seq<char> {
    str_or(search_track(item), "name"@, ""@)
}

/// The searched track's first artist (empty when missing).
pub open spec fn search_artist(item: JsonValue) -> Seq<char> {
    str_or(at_index(at_key(search_track(item), "artists"@), 0), "name"@, ""@)
}

/// The entry matches the lower-cased query by name or by artist, compared
/// lower-cased.
pub open spec fn search_hit(item: JsonValue, q: Seq<char>) -> bool {
    contains(lowercase(search_name(item)), q) || contains(lowercase(search_artist(item)), q)
}

/// The numbered matches among the first `n` entries, and how many there are.
pub open spec fn search_lines(items: Seq<JsonValue>, q: Seq<char>, n: nat) -> (Seq<char>, nat)
    decreases n,
{
    if n == 0 {
        (Seq::empty(), 0)
    } else {
        let prev = search_lines(items, q, (n - 1) as nat);
        let item = items[n - 1];
        if search_hit(item, q) {
            (
                prev.0 + decimal(prev.1 + 1) + ". **"@ + search_name(item) + "** - *"@
                    + search_artist(item) + "*\n"@,
                prev.1 + 1,
            )
        } else {
            prev
        }
    }
}

/// The search report: a header with the lower-cased query, the numbered
/// matches, and a note when there are none; nothing without `items`.
pub open spec fn search_output(parsed: JsonValue, query: Seq<char>) -> Seq<char> {
    let q = lowercase(query);
    match as_array(at_key(Some(parsed), "items"@)) {
        Some(items) => {
            let found = search_lines(items, q, items.len());
            "## Results for '"@ + q + "'\n"@ + found.0 + if found.1 == 0 {
                "No matches found."@
            } else {
                Seq::empty()
            }
        },
        None => Seq::empty(),
    }
}

fn search_track_exec(item: &JsonValue) -> (r: Option<&JsonValue>)
    ensures
        opt(r) == search_track(*item),
{
    let t = get(Some(item), "track");
    if !check_null(t) {
        t
    } else {
        Some(item)
    }
}

/// The numbered line of a matching entry (`count` matches before it), or
/// `None` when the entry does not match.
fn search_entry(item: &JsonValue, q: &str, count: usize) -> (r: Option<Vec<char>>)
    requires
        count < usize::MAX,
    ensures
        r is Some <==> search_hit(*item, q@),
        r matches Some(t) ==> t@ == decimal((count + 1) as nat) + ". **"@ + search_name(*item) + "** - *"@
            + search_artist(*item) + "*\n"@,
{
    let track = search_track_exec(item);
    let name = get_str_or(track, "name", "");
    let artist = get_str_or(index(get(track, "artists"), 0), "name", "");
    let lname = to_chars(to_lowercase(name).as_str());
    let lartist = to_chars(to_lowercase(artist).as_str());
    if contains_str(&lname, q) || contains_str(&lartist, q) {
        let mut t: Vec<char> = Vec::new();
        push_decimal(&mut t, (count + 1) as u64);
        extend_str(&mut t, ". **");
        extend_str(&mut t, name);
        extend_str(&mut t, "** - *");
        extend_str(&mut t, artist);
        extend_str(&mut t, "*\n");
        Some(t)
    } else {
        None
    }
}

/// Lists the entries of a tracks listing whose name or first artist contains
/// `query`, ignoring case.
#[verifier::spinoff_prover]
#[verifier::rlimit(30)]
pub fn search_tracks_in_response(parsed: &JsonValue, query: &str) -> (r: String)
    ensures
        r@ == search_output(*parsed, query@),
{
    let q = to_lowercase(query);
    let mut out: Vec<char> = Vec::new();
    match get_array(get(Some(parsed), "items")) {
        None => {},
        Some(items) => {
            extend_str(&mut out, "## Results for '");
            extend_str(&mut out, q.as_str());
            extend_str(&mut out, "'\n");
            let ghost head = out@;
            let n = items.len();
            let mut count: usize = 0;
            for i in 0..n
                invariant
                    n == items@.len(),
                    count <= i,
                    out@ == head + search_lines(items@, q@, i as nat).0,
                    count == search_lines(items@, q@, i as nat).1,
            {
                match search_entry(&items[i], q.as_str(), count) {
                    Some(t) => {
                        count = count + 1;
                        extend_chars(&mut out, &t);
                        assert(head + search_lines(items@, q@, (i + 1) as nat).0 =~= head
                            + search_lines(items@, q@, i as nat).0 + t@);
                    },
                    None => {},
                }
            }
            if count == 0 {
                extend_str(&mut out, "No matches found.");
            } else {
                assert(out@ =~= out@ + Seq::<char>::empty());
            }
        },
    }
    from_chars(&out)
}

/// The id of the first playlist whose lower-cased name contains `q`; `None`
/// as soon as an entry before it has no string name, or when that playlist's
/// id is not a string.
pub open spec fn playlist_match(items: Seq<JsonValue>, q: Seq<char>) -> Option<Seq<char>>
    decreases items.len(),
{
    if items.len() == 0 {
        None
    } else {
        match as_str(at_key(Some(items[0]), "name"@)) {
            None => None,
            Some(name) => if contains(lowercase(name), q) {
                as_str(at_key(Some(items[0]), "id"@))
            } else {
                playlist_match(items.drop_first(), q)
            },
        }
    }
}

/// The playlist id `find_playlist_id_by_name` gives for the parsed playlists
/// listing and a name.
pub open spec fn playlist_id_for(parsed: JsonValue, name: Seq<char>) -> Option<Seq<char>> {
    match as_array(at_key(Some(parsed), "items"@)) {
        Some(items) => playlist_match(items, lowercase(name)),
        None => None,
    }
}

/// The id of the first playlist of the listing whose name contains `name`,
/// ignoring case.
pub fn find_playlist_id_by_name(parsed: &JsonValue, name: &str) -> (r: Option<String>)
    ensures
        r matches Some(id) ==> playlist_id_for(*parsed, name@) == Some(id@),
        r is None ==> playlist_id_for(*parsed, name@) is None,
{
    let items = match get_array(get(Some(parsed), "items")) {
        None => return None,
        Some(items) => items,
    };
    let q = to_lowercase(name);
    let n = items.len();
    assert(items@.skip(0) =~= items@);
    for i in 0..n
        invariant
            n == items@.len(),
            playlist_id_for(*parsed, name@) == playlist_match(items@.skip(i as int), q@),
            q@ == lowercase(name@),
    {
        assert(items@.skip(i as int)[0] == items@[i as int]);
        assert(items@.skip(i as int).drop_first() =~= items@.skip(i + 1));
        let it = Some(&items[i]);
        let pname = match get_str(get(it, "name")) {
            None => return None,
            Some(s) => s,
        };
        let lname = to_chars(to_lowercase(pname).as_str());
        if contains_str(&lname, q.as_str()) {
            return match get_str(get(it, "id")) {
                None => None,
                Some(id) => Some(id.to_owned()),
            };
        }
    }
    assert(items@.skip(n as int) =~= Seq::<JsonValue>::empty());
    None
}

// ───────────────────────── interpreting requests ─────────────────────────

/// What the assistant is told to turn a Spotify request into.
pub const INTENT_RULES: &'static str = "\n        Categorize the user's Spotify request into one of these JSON formats:\n        - {\"intent\": \"LIST_PLAYLISTS\"}\n        - {\"intent\": \"LIST_LIKED_SONGS\"}\n        - {\"intent\": \"USER_INFO\"}\n        - {\"intent\": \"SEARCH_IN_PLAYLIST\", \"playlist\": \"...\", \"query\": \"...\"}\n        - {\"intent\": \"LIST_TRACKS\", \"playlist\": \"...\"}\n        - {\"intent\": \"UNKNOWN\"}\n        Return ONLY the JSON object.\n    ";

/// The prompt asking the model to categorise a Spotify request.
pub fn intent_prompt(prompt: &str) -> (r: String)
    ensures
        r@ == INTENT_RULES@ + "\nUser Request: "@ + prompt@,
{
    let mut t: Vec<char> = Vec::new();
    extend_str(&mut t, INTENT_RULES);
    extend_str(&mut t, "\nUser Request: ");
    extend_str(&mut t, prompt);
    from_chars(&t)
}

/// The prompt handing the fetched data back to the model with the request.
pub fn data_prompt(prompt: &str, data: &str) -> (r: String)
    ensures
        r@ == "USER PROMPT: "@ + prompt@ + "\n\nSPOTIFY DATA:\n"@ + data@,
{
    let mut t: Vec<char> = Vec::new();
    extend_str(&mut t, "USER PROMPT: ");
    extend_str(&mut t, prompt);
    extend_str(&mut t, "\n\nSPOTIFY DATA:\n");
    extend_str(&mut t, data);
    from_chars(&t)
}

/// What a categorised Spotify request asks for.
pub enum SpotifyIntent {
    ListPlaylists,
    ListLikedSongs,
    UserInfo,
    /// The tracks of the playlist named `playlist`: searched for `query`
    /// when `search`, else listed.
    PlaylistTracks { playlist: String, query: String, search: bool },
    Unknown,
}

/// The `intent` field of a categorisation (`UNKNOWN` when missing).
pub open spec fn intent_name(data: JsonValue) -> Seq<char> {
    str_or(Some(data), "intent"@, "UNKNOWN"@)
}

/// The request a categorisation stands for.
pub fn spotify_intent(data: &JsonValue) -> (r: SpotifyIntent)
    ensures
        match r {
            SpotifyIntent::ListPlaylists => intent_name(*data) == "LIST_PLAYLISTS"@,
            SpotifyIntent::ListLikedSongs => intent_name(*data) == "LIST_LIKED_SONGS"@,
            SpotifyIntent::UserInfo => intent_name(*data) == "USER_INFO"@,
            SpotifyIntent::PlaylistTracks { playlist, query, search } => {
                &&& intent_name(*data) == "SEARCH_IN_PLAYLIST"@ || intent_name(*data)
                    == "LIST_TRACKS"@
                &&& playlist@ == str_or(Some(*data), "playlist"@, ""@)
                &&& query@ == str_or(Some(*data), "query"@, ""@)
                &&& search == (intent_name(*data) == "SEARCH_IN_PLAYLIST"@)
            },
            SpotifyIntent::Unknown => {
                &&& intent_name(*data) != "LIST_PLAYLISTS"@
                &&& intent_name(*data) != "LIST_LIKED_SONGS"@
                &&& intent_name(*data) != "USER_INFO"@
                &&& intent_name(*data) != "SEARCH_IN_PLAYLIST"@
                &&& intent_name(*data) != "LIST_TRACKS"@
            },
        },
{
    let d = Some(data);
    let intent = to_chars(get_str_or(d, "intent", "UNKNOWN"));
    if chars_eq_str(&intent, "LIST_PLAYLISTS") {
        SpotifyIntent::ListPlaylists
    } else if chars_eq_str(&intent, "LIST_LIKED_SONGS") {
        SpotifyIntent::ListLikedSongs
    } else if chars_eq_str(&intent, "USER_INFO") {
        SpotifyIntent::UserInfo
    } else {
        let search = chars_eq_str(&intent, "SEARCH_IN_PLAYLIST");
        if search || chars_eq_str(&intent, "LIST_TRACKS") {
            SpotifyIntent::PlaylistTracks {
                playlist: get_str_or(d, "playlist", "").to_owned(),
                query: get_str_or(d, "query", "").to_owned(),
                search,
            }
        } else {
            SpotifyIntent::Unknown
        }
    }
}

/// A further fetch the model asks for after seeing the data.
pub struct FollowUp {
    pub playlist_id: String,
    pub query: String,
    pub search: bool,
}

/// What the model's answer on the fetched data says to do: show `content`,
/// then carry out `follow_up`.
pub struct SpotifyReply {
    pub content: Option<String>,
    pub follow_up: Option<FollowUp>,
}

/// The `next_action` object of an answer, if it is an object.
pub open spec fn next_action(processed: JsonValue) -> Option<JsonValue> {
    let n = at_key(Some(processed), "next_action"@);
    if is_object(n) {
        n
    } else {
        None
    }
}

/// Reads the model's answer on the fetched data.
pub fn spotify_reply(processed: &JsonValue) -> (r: SpotifyReply)
    ensures
        r.content matches Some(c) ==> as_str(at_key(Some(*processed), "content"@)) == Some(c@),
        r.content is None ==> as_str(at_key(Some(*processed), "content"@)) is None,
        r.follow_up matches Some(f) ==> {
            let next = next_action(*processed);
            let intent = str_or(next, "intent"@, "UNKNOWN"@);
            &&& next is Some
            &&& intent == "SEARCH_IN_PLAYLIST"@ || intent == "LIST_TRACKS"@
            &&& f.playlist_id@ == str_or(next, "playlist_id"@, ""@)
            &&& f.playlist_id@.len() > 0
            &&& f.query@ == str_or(next, "query"@, ""@)
            &&& f.search == (intent == "SEARCH_IN_PLAYLIST"@)
        },
        r.follow_up is None ==> {
            let next = next_action(*processed);
            let intent = str_or(next, "intent"@, "UNKNOWN"@);
            ||| next is None
            ||| intent != "SEARCH_IN_PLAYLIST"@ && intent != "LIST_TRACKS"@
            ||| str_or(next, "playlist_id"@, ""@).len() == 0
        },
{
    let root = Some(processed);
    let content = match get_str(get(root, "content")) {
        Some(c) => Some(c.to_owned()),
        None => None,
    };
    let n = get(root, "next_action");
    let next = if check_object(n) {
        n
    } else {
        None
    };
    if next.is_none() {
        return SpotifyReply { content, follow_up: None };
    }
    let intent = to_chars(get_str_or(next, "intent", "UNKNOWN"));
    let search = chars_eq_str(&intent, "SEARCH_IN_PLAYLIST");
    if !search && !chars_eq_str(&intent, "LIST_TRACKS") {
        return SpotifyReply { content, follow_up: None };
    }
    let id = get_str_or(next, "playlist_id", "");
    if id.is_empty() {
        return SpotifyReply { content, follow_up: None };
    }
    let query = get_str_or(next, "query", "");
    SpotifyReply {
        content,
        follow_up: Some(FollowUp { playlist_id: id.to_owned(), query: query.to_owned(), search }),
    }
}

// ───────────────────────── the authorisation callback ─────────────────────────

/// The path the authorisation service redirects to.
pub const CALLBACK_PATH: &'static str = "/callback";

/// The query of a request URL: what follows the first `?`, up to the next
/// `?` if any; empty without a `?`.
pub open spec fn query_of(url: Seq<char>) -> Seq<char> {
    match find(url, seq!['?']) {
        None => Seq::empty(),
        Some(i) => {
            let rest = url.skip((i + 1) as int);
            match find(rest, seq!['?']) {
                Some(j) => rest.take(j as int),
                None => rest,
            }
        },
    }
}

/// The name of a `name=value` pair (the whole pair without `=`).
pub open spec fn pair_key(p: Seq<char>) -> Seq<char> {
    match find(p, seq!['=']) {
        Some(i) => p.take(i as int),
        None => p,
    }
}

/// The value of a `name=value` pair (empty without `=`).
pub open spec fn pair_value(p: Seq<char>) -> Seq<char> {
    match find(p, seq!['=']) {
        Some(i) => p.skip((i + 1) as int),
        None => Seq::empty(),
    }
}

/// The value of the last pair named `key`.
pub open spec fn last_param(pairs: Seq<Seq<char>>, key: Seq<char>) -> Option<Seq<char>>
    decreases pairs.len(),
{
    if pairs.len() == 0 {
        None
    } else if pair_key(pairs.last()) == key {
        Some(pair_value(pairs.last()))
    } else {
        last_param(pairs.drop_last(), key)
    }
}

/// The query parameter `key` of a URL, the last one winning, empty when
/// absent.
pub open spec fn url_param(url: Seq<char>, key: Seq<char>) -> Seq<char> {
    match last_param(split_on(query_of(url), '&'), key) {
        Some(v) => v,
        None => Seq::empty(),
    }
}

fn query_chars(url: &Vec<char>) -> (r: Vec<char>)
    ensures
        r@ == query_of(url@),
{
    let n = url.len();
    match find_char(url, '?') {
        None => Vec::new(),
        Some(i) => {
            proof {
                lemma_find_from(url@, seq!['?'], 0);
                assert(occurs_at(url@, seq!['?'], i as int));
            }
            let rest = slice_chars(url, i + 1, n);
            assert(rest@ =~= url@.skip(i + 1));
            match find_char(&rest, '?') {
                Some(j) => {
                    proof {
                        lemma_find_from(rest@, seq!['?'], 0);
                    }
                    let q = slice_chars(&rest, 0, j);
                    assert(q@ =~= rest@.take(j as int));
                    q
                },
                None => rest,
            }
        },
    }
}

fn pair_parts(p: &Vec<char>) -> (r: (Vec<char>, Vec<char>))
    ensures
        r.0@ == pair_key(p@),
        r.1@ == pair_value(p@),
{
    let n = p.len();
    match find_char(p, '=') {
        Some(i) => {
            proof {
                lemma_find_from(p@, seq!['='], 0);
                assert(occurs_at(p@, seq!['='], i as int));
            }
            let k = slice_chars(p, 0, i);
            let v = slice_chars(p, i + 1, n);
            assert(k@ =~= p@.take(i as int));
            assert(v@ =~= p@.skip(i + 1));
            (k, v)
        },
        None => (slice_chars(p, 0, p.len()), Vec::new()),
    }
}

fn param_value(pairs: &Vec<Vec<char>>, key: &str) -> (r: Vec<char>)
    ensures
        r@ == (match last_param(views(pairs@), key@) {
            Some(v) => v,
            None => Seq::empty(),
        }),
{
    let keyv = to_chars(key);
    let mut i = pairs.len();
    let ghost pv = views(pairs@);
    assert(pv.take(pv.len() as int) =~= pv);
    while i > 0
        invariant
            i <= pairs@.len(),
            pv == views(pairs@),
            keyv@ == key@,
            last_param(pv, key@) == last_param(pv.take(i as int), key@),
        decreases i,
    {
        let (k, v) = pair_parts(&pairs[i - 1]);
        assert(pv.take(i as int).last() == pairs@[i - 1]@);
        assert(pv.take(i as int).drop_last() =~= pv.take(i - 1));
        if crate::text::chars_eq(&k, &keyv) {
            return v;
        }
        i = i - 1;
    }
    Vec::new()
}

/// For a request on the callback path, the `code` and `state` it carries
/// (empty when missing); `None` for any other path.
pub fn callback_params(url: &str) -> (r: Option<(String, String)>)
    ensures
        r is None <==> !starts_with(url@, CALLBACK_PATH@),
        r matches Some(p) ==> p.0@ == url_param(url@, "code"@) && p.1@ == url_param(
            url@,
            "state"@,
        ),
{
    let u = to_chars(url);
    if !has_prefix_str(&u, CALLBACK_PATH) {
        return None;
    }
    let q = query_chars(&u);
    let pairs = split_char(&q, '&');
    let code = param_value(&pairs, "code");
    let state = param_value(&pairs, "state");
    Some((from_chars(&code), from_chars(&state)))
}

// ───────────────────────── the session ─────────────────────────

impl SavedTokens {
    /// The session a code exchange starts; `None` when the service sent no
    /// refresh token.
    pub fn from_exchange(resp: TokenResponse) -> (r: Option<SavedTokens>)
        ensures
            r is Some <==> resp.refresh_token is Some,
            r matches Some(t) ==> t.access_token == resp.access_token && Some(t.refresh_token)
                == resp.refresh_token,
    {
        match resp.refresh_token {
            Some(refresh_token) => Some(SavedTokens { access_token: resp.access_token, refresh_token }),
            None => None,
        }
    }

    /// The session after a refresh: the new access token, and the new
    /// refresh token when the service sent one, else the one kept.
    pub fn refreshed(self, resp: TokenResponse) -> (r: SavedTokens)
        ensures
            r.access_token == resp.access_token,
            r.refresh_token == (match resp.refresh_token {
                Some(t) => t,
                None => self.refresh_token,
            }),
    {
        let refresh_token = match resp.refresh_token {
            Some(t) => t,
            None => self.refresh_token,
        };
        SavedTokens { access_token: resp.access_token, refresh_token }
    }
}

} // verus!

//! The requests sent to LRCLIB and Musixmatch, and what their answers mean:
//! the URLs with their percent-encoded parameters, the order in which
//! Musixmatch is asked (track identifiers first, then its matcher), how a
//! token failure is told from a missing track, and when another token is
//! tried. The HTTP exchange itself is left to the caller.

use vstd::prelude::*;
use vstd::utf8::encode_utf8;
use crate::json::{
    as_int, as_text, decimal, decimal_string, extract_track_ids_from_json,
    extract_track_ids_from_macro, get, get_in, get_root_status_code, int_of, int_text,
    int_string, is_success, member, status_code_of, text_of, track_ids_of, JsonValue, at_in,
    element, macro_track,
};
use crate::lrc::{all_unworded, lrc_entries, parse_synced_lyrics, timed_texts};
use crate::metadata::opt_view;
use crate::providers::{is_token_error_code, token_error_code, ProviderResult};
use crate::text::{chars_of, copy_range, push_str, string_from_chars, trim, trim_bounds, views};
use crate::types::{LyricLine, LyricsError, TrackMatchInfo};

verus! {

/// A byte that percent-encoding leaves as it is: ASCII letters, digits and
/// `-`, `.`, `_`, `~`.
pub open spec fn unreserved_byte(b: u8) -> bool {
    (48 <= b <= 57) || (65 <= b <= 90) || (97 <= b <= 122) || b == 45 || b == 46 || b == 95 || b
        == 126
}

/// The upper-case hexadecimal digit for `d` (below 16).
pub open spec fn hex_char(d: int) -> char {
    if d < 10 {
        (48 + d) as char
    } else {
        (55 + d) as char
    }
}

/// Percent-encoding of bytes: unreserved bytes stay, every other byte
/// becomes `%` and two upper-case hexadecimal digits.
pub open spec fn percent_encoded(bytes: Seq<u8>) -> Seq<char>
    decreases bytes.len(),
{
    if bytes.len() == 0 {
        Seq::empty()
    } else {
        let b = bytes.last();
        percent_encoded(bytes.drop_last()) + if unreserved_byte(b) {
            seq![b as char]
        } else {
            seq!['%', hex_char((b / 16) as int), hex_char((b % 16) as int)]
        }
    }
}

/// The percent-encoding of the UTF-8 bytes of a string.
pub open spec fn url_encoded(s: Seq<char>) -> Seq<char> {
    percent_encoded(encode_utf8(s))
}

/// Percent-encodes a string for a URL (`urlencoding::encode`): every byte
/// of its UTF-8 encoding except ASCII letters, digits and `-._~` becomes
/// `%XX` with upper-case hexadecimal digits.
#[verifier::external_body]
fn url_encode(s: &str) -> (r: String)
    ensures
        r@ == url_encoded(s@),
{
    urlencoding::encode(s).into_owned()
}

/// Whole seconds nearest to `ms` milliseconds, halves rounded up.
pub open spec fn rounded_seconds(ms: u64) -> nat {
    ((ms + 500) / 1000) as nat
}

/// Rounds milliseconds to the nearest whole second.
pub fn round_to_seconds(ms: u64) -> (r: u64)
    ensures
        r == rounded_seconds(ms),
{
    let q = ms / 1000;
    let rem = ms % 1000;
    assert(ms == 1000 * q + rem && rem < 1000) by (nonlinear_arith)
        requires
            q == ms / 1000,
            rem == ms % 1000,
    ;
    if rem >= 500 {
        assert((ms + 500) / 1000 == q + 1) by (nonlinear_arith)
            requires
                ms == 1000 * q + rem,
                500 <= rem < 1000,
        ;
        q + 1
    } else {
        assert((ms + 500) / 1000 == q) by (nonlinear_arith)
            requires
                ms == 1000 * q + rem,
                rem < 500,
        ;
        q
    }
}

/// The LRCLIB lookup URL for a track: artist, title, the album when there is
/// one, and the duration in whole seconds when it is known.
pub open spec fn lrclib_url_of(
    artist: Seq<char>,
    title: Seq<char>,
    album: Seq<char>,
    duration_ms: Option<u64>,
) -> Seq<char> {
    "https://lrclib.net/api/get?artist_name="@ + url_encoded(artist) + "&track_name="@
        + url_encoded(title) + (if album.len() > 0 {
        "&album_name="@ + url_encoded(album)
    } else {
        Seq::empty()
    }) + match duration_ms {
        Some(ms) => "&duration="@ + decimal(rounded_seconds(ms)),
        None => Seq::empty(),
    }
}

/// Builds the LRCLIB lookup URL.
pub fn lrclib_url(artist: &str, title: &str, album: &str, duration_ms: Option<u64>) -> (r: String)
    ensures
        r@ == lrclib_url_of(artist@, title@, album@, duration_ms),
{
    let mut v: Vec<char> = Vec::new();
    push_str(&mut v, "https://lrclib.net/api/get?artist_name=");
    push_str(&mut v, url_encode(artist).as_str());
    push_str(&mut v, "&track_name=");
    push_str(&mut v, url_encode(title).as_str());
    if !album.is_empty() {
        push_str(&mut v, "&album_name=");
        push_str(&mut v, url_encode(album).as_str());
    }
    if let Some(ms) = duration_ms {
        push_str(&mut v, "&duration=");
        push_str(&mut v, decimal_string(round_to_seconds(ms)).as_str());
    }
    assert(v@ =~= lrclib_url_of(artist@, title@, album@, duration_ms));
    string_from_chars(v.as_slice())
}

/// What an LRCLIB answer's HTTP status decides by itself: 404 means no
/// lyrics; any other status outside 200..300 is an error naming it
/// (`status_text`, e.g. `500 Internal Server Error`); otherwise the body
/// must be read.
pub fn lrclib_status(status: u16, status_text: &str) -> (r: Option<ProviderResult>)
    ensures
        status == 404 ==> (r matches Some(Ok((lines, raw, _))) && lines@.len() == 0 && raw is None),
        status != 404 && !(200 <= status < 300) ==> (r matches Some(Err(LyricsError::Api(m)))
            && m@ == "lrclib: unexpected status "@ + status_text@),
        status != 404 && 200 <= status < 300 ==> r is None,
{
    if status == 404 {
        return Some(Ok((Vec::new(), None, empty_ids())));
    }
    if !(200 <= status && status < 300) {
        let mut v: Vec<char> = Vec::new();
        push_str(&mut v, "lrclib: unexpected status ");
        push_str(&mut v, status_text);
        return Some(Err(LyricsError::Api(string_from_chars(v.as_slice()))));
    }
    None
}

/// No track identifiers.
pub fn empty_ids() -> (r: TrackMatchInfo)
    ensures
        r.track_isrcs@.len() == 0,
        r.track_spotify_ids@.len() == 0,
        r.track_itunes_ids@.len() == 0,
{
    TrackMatchInfo { track_isrcs: Vec::new(), track_spotify_ids: Vec::new(), track_itunes_ids: Vec::new() }
}

/// The lyrics of an LRCLIB answer from its `syncedLyrics` field: none when
/// it is missing or empty, else the parsed LRC and the raw text.
pub fn lrclib_lyrics(synced: Option<String>) -> (r: ProviderResult)
    ensures
        r matches Ok((lines, raw, ids)) && ids.track_isrcs@.len() == 0 && ids.track_spotify_ids@.len()
            == 0 && ids.track_itunes_ids@.len() == 0 && match synced {
            Some(s) if s@.len() > 0 => raw == Some(s) && timed_texts(lines@) == lrc_entries(s@)
                && all_unworded(lines@),
            _ => lines@.len() == 0 && raw is None,
        },
{
    match synced {
        Some(s) => {
            if s.as_str().is_empty() {
                Ok((Vec::new(), None, empty_ids()))
            } else {
                let lines = parse_synced_lyrics(s.as_str());
                Ok((lines, Some(s), empty_ids()))
            }
        },
        None => Ok((Vec::new(), None, empty_ids())),
    }
}

/// Query parameters as `key=value` pairs joined by `&`, each value
/// percent-encoded.
pub open spec fn query_of(params: Seq<(String, String)>) -> Seq<char>
    decreases params.len(),
{
    if params.len() == 0 {
        Seq::empty()
    } else if params.len() == 1 {
        params[0].0@ + "="@ + url_encoded(params[0].1@)
    } else {
        query_of(params.drop_last()) + "&"@ + params.last().0@ + "="@ + url_encoded(
            params.last().1@,
        )
    }
}

/// The start of every `macro.subtitles.get` request.
pub open spec fn macro_base() -> Seq<char> {
    "https://apic-desktop.musixmatch.com/ws/1.1/macro.subtitles.get?format=json&namespace=lyrics_richsynched&subtitle_format=mxm&optional_calls=track.richsync&app_id=web-desktop-app-v1.0&"@
}

/// Builds the `macro.subtitles.get` URL for the given parameters.
pub fn macro_url(params: &Vec<(String, String)>) -> (r: String)
    ensures
        r@ == macro_base() + query_of(params@),
{
    let mut v: Vec<char> = Vec::new();
    push_str(
        &mut v,
        "https://apic-desktop.musixmatch.com/ws/1.1/macro.subtitles.get?format=json&namespace=lyrics_richsynched&subtitle_format=mxm&optional_calls=track.richsync&app_id=web-desktop-app-v1.0&",
    );
    let ghost base = v@;
    let mut i: usize = 0;
    while i < params.len()
        invariant
            i <= params@.len(),
            v@ == base + query_of(params@.take(i as int)),
        decreases params@.len() - i,
    {
        if i > 0 {
            push_str(&mut v, "&");
        }
        push_str(&mut v, params[i].0.as_str());
        push_str(&mut v, "=");
        push_str(&mut v, url_encode(params[i].1.as_str()).as_str());
        proof {
            assert(params@.take(i + 1).drop_last() =~= params@.take(i as int));
            assert(params@.take(i + 1).last() == params@[i as int]);
            if i == 0 {
                assert(params@.take(1)[0] == params@[0]);
            }
        }
        assert(v@ =~= base + query_of(params@.take(i + 1)));
        i = i + 1;
    }
    assert(params@.take(i as int) =~= params@);
    string_from_chars(v.as_slice())
}

/// A key and value pair.
pub fn param(key: &str, value: &str) -> (r: (String, String))
    ensures
        r.0@ == key@,
        r.1@ == value@,
{
    (string_from_chars(chars_of(key).as_slice()), string_from_chars(chars_of(value).as_slice()))
}

/// The parameters of a lookup by one identifier: the identifier under
/// `kind`, the user token, and the duration in whole seconds when known.
pub open spec fn lookup_params_of(
    kind: Seq<char>,
    id: Seq<char>,
    token: Seq<char>,
    duration_ms: Option<u64>,
) -> Seq<(Seq<char>, Seq<char>)> {
    seq![(kind, id), ("usertoken"@, token)] + match duration_ms {
        Some(ms) => seq![("q_duration"@, decimal(rounded_seconds(ms)))],
        None => Seq::empty(),
    }
}

/// The views of key and value pairs.
pub open spec fn pair_views(v: Seq<(String, String)>) -> Seq<(Seq<char>, Seq<char>)> {
    v.map_values(|p: (String, String)| (p.0@, p.1@))
}

/// Builds the parameters of a lookup by one identifier.
pub fn lookup_params(kind: &str, id: &str, token: &str, duration_ms: Option<u64>) -> (r: Vec<
    (String, String),
>)
    ensures
        pair_views(r@) == lookup_params_of(kind@, id@, token@, duration_ms),
{
    let mut v: Vec<(String, String)> = Vec::new();
    v.push(param(kind, id));
    v.push(param("usertoken", token));
    if let Some(ms) = duration_ms {
        let secs = decimal_string(round_to_seconds(ms));
        v.push(param("q_duration", secs.as_str()));
    }
    assert(pair_views(v@) =~= lookup_params_of(kind@, id@, token@, duration_ms));
    v
}

/// The direct lookups Musixmatch is asked, in order: by Spotify id, by ISRC,
/// by iTunes id, each only when the player reported one.
pub open spec fn id_lookups_of(
    token: Seq<char>,
    spotify_id: Option<Seq<char>>,
    isrc: Option<Seq<char>>,
    itunes_id: Option<Seq<char>>,
    duration_ms: Option<u64>,
) -> Seq<Seq<(Seq<char>, Seq<char>)>> {
    (match spotify_id {
        Some(s) => seq![lookup_params_of("track_spotify_id"@, s, token, duration_ms)],
        None => Seq::empty(),
    }) + (match isrc {
        Some(s) => seq![lookup_params_of("track_isrc"@, s, token, duration_ms)],
        None => Seq::empty(),
    }) + (match itunes_id {
        Some(s) => seq![lookup_params_of("track_itunes_id"@, s, token, duration_ms)],
        None => Seq::empty(),
    })
}

/// Every identifier the player reported gets its own direct lookup, in the
/// order Spotify id, ISRC, iTunes id, and nothing else does: the lookup of an
/// identifier carries it under its own key (`track_spotify_id`,
/// `track_isrc`, `track_itunes_id`) followed by the user token.
pub proof fn lemma_id_lookups_each_identifier(
    token: Seq<char>,
    spotify_id: Option<Seq<char>>,
    isrc: Option<Seq<char>>,
    itunes_id: Option<Seq<char>>,
    duration_ms: Option<u64>,
)
    ensures
        ({
            let r = id_lookups_of(token, spotify_id, isrc, itunes_id, duration_ms);
            let a: int = if spotify_id is Some {
                1
            } else {
                0
            };
            let b: int = a + if isrc is Some {
                1int
            } else {
                0int
            };
            &&& r.len() == b + if itunes_id is Some {
                1int
            } else {
                0int
            }
            &&& forall|k: int|
                0 <= k < r.len() ==> (#[trigger] r[k]).len() >= 2 && r[k][1] == (
                    "usertoken"@,
                    token,
                )
            &&& spotify_id matches Some(s) ==> r[0][0] == ("track_spotify_id"@, s)
            &&& isrc matches Some(s) ==> r[a][0] == ("track_isrc"@, s)
            &&& itunes_id matches Some(s) ==> r[b][0] == ("track_itunes_id"@, s)
        }),
{
    let r = id_lookups_of(token, spotify_id, isrc, itunes_id, duration_ms);
    let p1: Seq<Seq<(Seq<char>, Seq<char>)>> = match spotify_id {
        Some(s) => seq![lookup_params_of("track_spotify_id"@, s, token, duration_ms)],
        None => Seq::empty(),
    };
    let p2: Seq<Seq<(Seq<char>, Seq<char>)>> = match isrc {
        Some(s) => seq![lookup_params_of("track_isrc"@, s, token, duration_ms)],
        None => Seq::empty(),
    };
    let p3: Seq<Seq<(Seq<char>, Seq<char>)>> = match itunes_id {
        Some(s) => seq![lookup_params_of("track_itunes_id"@, s, token, duration_ms)],
        None => Seq::empty(),
    };
    assert(r == p1 + p2 + p3);
    assert forall|k: int| 0 <= k < r.len() implies (#[trigger] r[k]).len() >= 2 && r[k][1] == (
        "usertoken"@,
        token,
    ) by {
        if k < p1.len() {
            assert(r[k] == p1[k]);
        } else if k < p1.len() + p2.len() {
            assert(r[k] == p2[k - p1.len()]);
        } else {
            assert(r[k] == p3[k - p1.len() - p2.len()]);
        }
    }
    if isrc is Some {
        assert(r[p1.len() as int] == p2[0]);
    }
    if itunes_id is Some {
        assert(r[(p1.len() + p2.len()) as int] == p3[0]);
    }
}

/// Builds the parameter lists of the direct lookups, in the order they are
/// tried.
pub fn id_lookups(
    token: &str,
    spotify_id: &Option<String>,
    isrc: &Option<String>,
    itunes_id: &Option<String>,
    duration_ms: Option<u64>,
) -> (r: Vec<Vec<(String, String)>>)
    ensures
        r@.map_values(|p: Vec<(String, String)>| pair_views(p@)) == id_lookups_of(
            token@,
            opt_view(*spotify_id),
            opt_view(*isrc),
            opt_view(*itunes_id),
            duration_ms,
        ),
{
    let mut out: Vec<Vec<(String, String)>> = Vec::new();
    if let Some(s) = spotify_id {
        out.push(lookup_params("track_spotify_id", s.as_str(), token, duration_ms));
    }
    if let Some(s) = isrc {
        out.push(lookup_params("track_isrc", s.as_str(), token, duration_ms));
    }
    if let Some(s) = itunes_id {
        out.push(lookup_params("track_itunes_id", s.as_str(), token, duration_ms));
    }
    assert(out@.map_values(|p: Vec<(String, String)>| pair_views(p@)) =~= id_lookups_of(
        token@,
        opt_view(*spotify_id),
        opt_view(*isrc),
        opt_view(*itunes_id),
        duration_ms,
    ));
    out
}

/// The `matcher.track.get` URL: artist, title and token, the album when
/// there is one, the duration in whole seconds when known.
pub open spec fn matcher_url_of(
    artist: Seq<char>,
    title: Seq<char>,
    album: Seq<char>,
    token: Seq<char>,
    duration_ms: Option<u64>,
) -> Seq<char> {
    "https://apic-desktop.musixmatch.com/ws/1.1/matcher.track.get?format=json&app_id=web-desktop-app-v1.0&q_artist="@
        + url_encoded(artist) + "&q_track="@ + url_encoded(title) + "&usertoken="@
        + url_encoded(token) + (if album.len() > 0 {
        "&q_album="@ + url_encoded(album)
    } else {
        Seq::empty()
    }) + match duration_ms {
        Some(ms) => "&q_duration="@ + decimal(rounded_seconds(ms)),
        None => Seq::empty(),
    }
}

/// Builds the `matcher.track.get` URL.
pub fn matcher_url(
    artist: &str,
    title: &str,
    album: &str,
    token: &str,
    duration_ms: Option<u64>,
) -> (r: String)
    ensures
        r@ == matcher_url_of(artist@, title@, album@, token@, duration_ms),
{
    let mut v: Vec<char> = Vec::new();
    push_str(
        &mut v,
        "https://apic-desktop.musixmatch.com/ws/1.1/matcher.track.get?format=json&app_id=web-desktop-app-v1.0&q_artist=",
    );
    push_str(&mut v, url_encode(artist).as_str());
    push_str(&mut v, "&q_track=");
    push_str(&mut v, url_encode(title).as_str());
    push_str(&mut v, "&usertoken=");
    push_str(&mut v, url_encode(token).as_str());
    if !album.is_empty() {
        push_str(&mut v, "&q_album=");
        push_str(&mut v, url_encode(album).as_str());
    }
    if let Some(ms) = duration_ms {
        push_str(&mut v, "&q_duration=");
        push_str(&mut v, decimal_string(round_to_seconds(ms)).as_str());
    }
    assert(v@ =~= matcher_url_of(artist@, title@, album@, token@, duration_ms));
    string_from_chars(v.as_slice())
}

/// What one request with one token came to.
#[derive(Debug)]
pub enum FetchOutcome {
    /// Lyrics found: lines, raw text, track identifiers.
    Success(Vec<LyricLine>, Option<String>, TrackMatchInfo),
    /// The track, or its lyrics, are not on Musixmatch.
    TrackNotFound,
    /// The token was refused (401, 402, 403 or 429), with the reason.
    TokenError(String),
}

/// What an HTTP status decides by itself: a token error (named `prefix`
/// and the status text) for 401, 402, 403 and 429, not found for any other
/// status outside 200..300, nothing for success.
pub fn status_outcome(status: u16, status_text: &str, prefix: &str) -> (r: Option<FetchOutcome>)
    ensures
        token_error_code(status as i64) ==> (r matches Some(FetchOutcome::TokenError(m)) && m@
            == prefix@ + status_text@),
        !token_error_code(status as i64) && !(200 <= status < 300) ==> (r matches Some(
            FetchOutcome::TrackNotFound,
        )),
        200 <= status < 300 ==> r is None,
{
    if is_token_error_code(status as i64) {
        let mut v: Vec<char> = Vec::new();
        push_str(&mut v, prefix);
        push_str(&mut v, status_text);
        return Some(FetchOutcome::TokenError(string_from_chars(v.as_slice())));
    }
    if !(200 <= status && status < 300) {
        return Some(FetchOutcome::TrackNotFound);
    }
    None
}

/// A token error named `prefix` and the status code, when the code at the
/// root of a response is a token error.
pub fn root_status_outcome(json: &JsonValue, prefix: &str) -> (r: Option<FetchOutcome>)
    ensures
        match status_code_of(Some(*json)) {
            Some(c) => if token_error_code(c) {
                r matches Some(FetchOutcome::TokenError(m)) && m@ == prefix@ + int_text(c)
            } else {
                r is None
            },
            None => r is None,
        },
{
    if let Some(code) = get_root_status_code(json) {
        if is_token_error_code(code) {
            let mut v: Vec<char> = Vec::new();
            push_str(&mut v, prefix);
            push_str(&mut v, int_string(code).as_str());
            return Some(FetchOutcome::TokenError(string_from_chars(v.as_slice())));
        }
    }
    None
}

/// The calls of a macro response (`message/body/macro_calls`).
pub open spec fn macro_calls_of(json: JsonValue) -> Option<JsonValue> {
    member(member(member(Some(json), "message"@), "body"@), "macro_calls"@)
}

/// The richsync body of a macro response, when its `track.richsync.get`
/// call succeeded and holds one.
pub open spec fn richsync_body_of(json: JsonValue) -> Option<Seq<char>> {
    match macro_calls_of(json) {
        Some(calls) => if status_code_of(member(Some(calls), "track.richsync.get"@)) == Some(
            200i64,
        ) {
            as_text(
                member(
                    member(
                        member(
                            member(member(Some(calls), "track.richsync.get"@), "message"@),
                            "body"@,
                        ),
                        "richsync"@,
                    ),
                    "richsync_body"@,
                ),
            )
        } else {
            None
        },
        None => None,
    }
}

/// The subtitle body of a macro response, when its `track.subtitles.get`
/// call succeeded and holds one.
pub open spec fn subtitle_body_of(json: JsonValue) -> Option<Seq<char>> {
    match macro_calls_of(json) {
        Some(calls) => if status_code_of(member(Some(calls), "track.subtitles.get"@)) == Some(
            200i64,
        ) {
            as_text(
                member(
                    member(
                        element(
                            member(
                                member(
                                    member(member(Some(calls), "track.subtitles.get"@), "message"@),
                                    "body"@,
                                ),
                                "subtitle_list"@,
                            ),
                            0,
                        ),
                        "subtitle"@,
                    ),
                    "subtitle_body"@,
                ),
            )
        } else {
            None
        },
        None => None,
    }
}

/// Reads the richsync and subtitle bodies of a macro response, for the
/// caller to parse.
pub fn macro_bodies(json: &JsonValue) -> (r: (Option<String>, Option<String>))
    ensures
        opt_view(r.0) == richsync_body_of(*json),
        opt_view(r.1) == subtitle_body_of(*json),
{
    let calls = get_in(get_in(get(json, "message"), "body"), "macro_calls");
    match calls {
        Some(c) => {
            let rich = if is_success(c, "track.richsync.get") {
                text_of(
                    get_in(
                        get_in(get_in(get_in(get(c, "track.richsync.get"), "message"), "body"), "richsync"),
                        "richsync_body",
                    ),
                )
            } else {
                None
            };
            let subs = if is_success(c, "track.subtitles.get") {
                text_of(
                    get_in(
                        get_in(
                            at_in(
                                get_in(
                                    get_in(get_in(get(c, "track.subtitles.get"), "message"), "body"),
                                    "subtitle_list",
                                ),
                                0,
                            ),
                            "subtitle",
                        ),
                        "subtitle_body",
                    ),
                )
            } else {
                None
            };
            (rich, subs)
        },
        None => (None, None),
    }
}

/// What a macro response comes to, given the parses of its bodies
/// (`richsync` for the richsync body, `subtitles` for the subtitle body):
/// a token error when its root status code is one; the richsync lyrics when
/// there is a body that parsed; else the subtitle lyrics likewise; else not
/// found. Found lyrics carry the track identifiers of the response.
pub fn macro_outcome(
    json: &JsonValue,
    richsync: Option<Vec<LyricLine>>,
    subtitles: Option<Vec<LyricLine>>,
) -> (r: FetchOutcome)
    ensures
        match status_code_of(Some(*json)) {
            Some(c) if token_error_code(c) => r matches FetchOutcome::TokenError(m) && m@
                == "API Status "@ + int_text(c),
            _ => match (macro_calls_of(*json), richsync_body_of(*json), richsync) {
                (Some(calls), Some(body), Some(lines)) => r matches FetchOutcome::Success(
                    l,
                    Some(raw),
                    ids,
                ) && l == lines && raw@ == body && macro_ids_of(calls, ids),
                _ => match (macro_calls_of(*json), subtitle_body_of(*json), subtitles) {
                    (Some(calls), Some(body), Some(lines)) => r matches FetchOutcome::Success(
                        l,
                        Some(raw),
                        ids,
                    ) && l == lines && raw@ == body && macro_ids_of(calls, ids),
                    _ => r is TrackNotFound,
                },
            },
        },
{
    if let Some(e) = root_status_outcome(json, "API Status ") {
        return e;
    }
    let (rich_body, sub_body) = macro_bodies(json);
    let calls = get_in(get_in(get(json, "message"), "body"), "macro_calls");
    if let Some(c) = calls {
        if let (Some(body), Some(lines)) = (rich_body, richsync) {
            return FetchOutcome::Success(lines, Some(body), extract_track_ids_from_macro(c));
        }
        if let (Some(body), Some(lines)) = (sub_body, subtitles) {
            return FetchOutcome::Success(lines, Some(body), extract_track_ids_from_macro(c));
        }
    }
    FetchOutcome::TrackNotFound
}

/// `ids` are the identifiers read from a macro response's calls.
pub open spec fn macro_ids_of(calls: JsonValue, ids: TrackMatchInfo) -> bool {
    match macro_track(calls) {
        Some(t) => (views(ids.track_isrcs@), views(ids.track_spotify_ids@), views(
            ids.track_itunes_ids@,
        )) == track_ids_of(t),
        None => ids.track_isrcs@.len() == 0 && ids.track_spotify_ids@.len() == 0
            && ids.track_itunes_ids@.len() == 0,
    }
}

/// What a `matcher.track.get` answer leads to.
#[derive(Debug)]
pub enum MatcherStep {
    /// The answer settles it.
    Done(FetchOutcome),
    /// Ask `macro.subtitles.get` for this common track id; lyrics found
    /// there are reported with these identifiers.
    FetchCommontrack(i64, TrackMatchInfo),
}

/// The track object of a matcher response (`message/body/track`).
pub open spec fn matcher_track_of(json: JsonValue) -> Option<JsonValue> {
    member(member(member(Some(json), "message"@), "body"@), "track"@)
}

/// The line shown for an instrumental track.
pub open spec fn instrumental_line(l: LyricLine) -> bool {
    l.time_ms == 0 && l.text@ == "♪ Instrumental ♪"@ && l.words is None
}

/// Reads a matcher response: a token error when its root status code is
/// one; not found without a track; an instrumental track gets one line
/// saying so; a track without lyrics (`has_lyrics` other than 1) or without
/// a common track id is not found; else its lyrics are fetched by common
/// track id.
pub fn matcher_outcome(json: &JsonValue) -> (r: MatcherStep)
    ensures
        match status_code_of(Some(*json)) {
            Some(c) if token_error_code(c) => r matches MatcherStep::Done(
                FetchOutcome::TokenError(m),
            ) && m@ == "Matcher API Status "@ + int_text(c),
            _ => match matcher_track_of(*json) {
                None => r matches MatcherStep::Done(FetchOutcome::TrackNotFound),
                Some(t) => if member(Some(t), "instrumental"@) == Some(JsonValue::Bool(true)) {
                    r matches MatcherStep::Done(FetchOutcome::Success(lines, raw, ids)) && lines@.len()
                        == 1 && instrumental_line(lines@[0]) && raw is None && (views(
                        ids.track_isrcs@,
                    ), views(ids.track_spotify_ids@), views(ids.track_itunes_ids@))
                        == track_ids_of(t)
                } else if as_int(member(Some(t), "has_lyrics"@)) != Some(1i64) {
                    r matches MatcherStep::Done(FetchOutcome::TrackNotFound)
                } else {
                    match as_int(member(Some(t), "commontrack_id"@)) {
                        Some(id) => r matches MatcherStep::FetchCommontrack(x, ids) && x == id
                            && (views(ids.track_isrcs@), views(ids.track_spotify_ids@), views(
                            ids.track_itunes_ids@,
                        )) == track_ids_of(t),
                        None => r matches MatcherStep::Done(FetchOutcome::TrackNotFound),
                    }
                },
            },
        },
{
    if let Some(e) = root_status_outcome(json, "Matcher API Status ") {
        return MatcherStep::Done(e);
    }
    let track = get_in(get_in(get(json, "message"), "body"), "track");
    let t = match track {
        Some(t) => t,
        None => {
            return MatcherStep::Done(FetchOutcome::TrackNotFound);
        },
    };
    let ids = extract_track_ids_from_json(t);
    let instrumental = match get(t, "instrumental") {
        Some(JsonValue::Bool(b)) => *b,
        _ => false,
    };
    if instrumental {
        let mut lines: Vec<LyricLine> = Vec::new();
        lines.push(
            LyricLine {
                time_ms: 0,
                text: string_from_chars(chars_of("♪ Instrumental ♪").as_slice()),
                words: None,
            },
        );
        return MatcherStep::Done(FetchOutcome::Success(lines, None, ids));
    }
    let has_lyrics = match int_of(get(t, "has_lyrics")) {
        Some(v) => v == 1,
        None => false,
    };
    if !has_lyrics {
        return MatcherStep::Done(FetchOutcome::TrackNotFound);
    }
    match int_of(get(t, "commontrack_id")) {
        Some(id) => MatcherStep::FetchCommontrack(id, ids),
        None => MatcherStep::Done(FetchOutcome::TrackNotFound),
    }
}

/// The parameters of the lyrics request for a common track id.
pub fn commontrack_params(id: i64, token: &str, duration_ms: Option<u64>) -> (r: Vec<
    (String, String),
>)
    ensures
        pair_views(r@) == lookup_params_of("commontrack_id"@, int_text(id), token@, duration_ms),
{
    let text = int_string(id);
    lookup_params("commontrack_id", text.as_str(), token, duration_ms)
}

/// What a lookup's outcome means for the next lookup: continue only when
/// the track was not found.
pub open spec fn keeps_looking(o: FetchOutcome) -> bool {
    o is TrackNotFound
}

/// What a direct lookup's outcome means for the search: `None` goes on
/// with the next lookup (the track was not found), anything else ends the
/// search with that outcome.
pub fn after_lookup(outcome: FetchOutcome) -> (r: Option<FetchOutcome>)
    ensures
        keeps_looking(outcome) ==> r is None,
        !keeps_looking(outcome) ==> r == Some(outcome),
{
    match outcome {
        FetchOutcome::TrackNotFound => None,
        other => Some(other),
    }
}

/// Lyrics found by common track id are reported with the identifiers the
/// matcher gave; other outcomes pass through unchanged.
pub fn with_matcher_ids(outcome: FetchOutcome, ids: TrackMatchInfo) -> (r: FetchOutcome)
    ensures
        match outcome {
            FetchOutcome::Success(l, raw, _) => r == FetchOutcome::Success(l, raw, ids),
            _ => r == outcome,
        },
{
    match outcome {
        FetchOutcome::Success(l, raw, _) => FetchOutcome::Success(l, raw, ids),
        other => other,
    }
}

/// No lyrics, no raw text, no identifiers: the answer when Musixmatch has
/// nothing.
pub open spec fn nothing_found(r: ProviderResult) -> bool {
    r matches Ok((lines, raw, ids)) && lines@.len() == 0 && raw is None && ids.track_isrcs@.len()
        == 0 && ids.track_spotify_ids@.len() == 0 && ids.track_itunes_ids@.len() == 0
}

/// The empty answer.
pub fn nothing() -> (r: ProviderResult)
    ensures
        nothing_found(r),
{
    Ok((Vec::new(), None, empty_ids()))
}

/// What an attempt with a configured token means: lyrics found or a missing
/// track end the search with that answer; a token error or a failed request
/// moves on to the next token (`None`).
pub fn after_env_attempt(outcome: Result<FetchOutcome, LyricsError>) -> (r: Option<ProviderResult>)
    ensures
        match outcome {
            Ok(FetchOutcome::Success(l, raw, ids)) => r == Some(
                Ok::<(Vec<LyricLine>, Option<String>, TrackMatchInfo), LyricsError>((l, raw, ids)),
            ),
            Ok(FetchOutcome::TrackNotFound) => r matches Some(x) && nothing_found(x),
            _ => r is None,
        },
{
    match outcome {
        Ok(FetchOutcome::Success(l, raw, ids)) => Some(Ok((l, raw, ids))),
        Ok(FetchOutcome::TrackNotFound) => Some(nothing()),
        _ => None,
    }
}

/// What an attempt with the service-issued token leads to.
#[derive(Debug)]
pub enum DynamicStep {
    /// The search ends with this answer.
    Finish(ProviderResult),
    /// The token was refused: get a fresh one and try once more.
    Renew,
}

/// What an attempt with the service-issued token means: lyrics found end
/// the search; a token error on the first attempt asks for a fresh token
/// and one retry; anything else ends it with nothing found.
pub fn after_dynamic_attempt(outcome: Result<FetchOutcome, LyricsError>, retried: bool) -> (r:
    DynamicStep)
    ensures
        match outcome {
            Ok(FetchOutcome::Success(l, raw, ids)) => r == DynamicStep::Finish(
                Ok::<(Vec<LyricLine>, Option<String>, TrackMatchInfo), LyricsError>((l, raw, ids)),
            ),
            Ok(FetchOutcome::TokenError(_)) => if retried {
                r matches DynamicStep::Finish(x) && nothing_found(x)
            } else {
                r is Renew
            },
            _ => r matches DynamicStep::Finish(x) && nothing_found(x),
        },
{
    match outcome {
        Ok(FetchOutcome::Success(l, raw, ids)) => DynamicStep::Finish(Ok((l, raw, ids))),
        Ok(FetchOutcome::TokenError(_)) => {
            if retried {
                DynamicStep::Finish(nothing())
            } else {
                DynamicStep::Renew
            }
        },
        _ => DynamicStep::Finish(nothing()),
    }
}

/// The user token in a `token.get` response (`message/body/user_token`),
/// trimmed; none when missing or empty.
pub open spec fn user_token_of(json: JsonValue) -> Option<Seq<char>> {
    match as_text(member(member(member(Some(json), "message"@), "body"@), "user_token"@)) {
        Some(t) => if trim(t).len() > 0 {
            Some(trim(t))
        } else {
            None
        },
        None => None,
    }
}

/// Reads the token of a successful `token.get` response: an error naming
/// the status unless it is 200 (a missing code counts as 0), an error when
/// the token is missing, else the token.
pub fn token_from_reply(json: &JsonValue) -> (r: Result<String, LyricsError>)
    ensures
        ({
            let code = match status_code_of(Some(*json)) {
                Some(c) => c,
                None => 0,
            };
            if code != 200 {
                r matches Err(LyricsError::Api(m)) && m@ == "Musixmatch token.get status "@
                    + int_text(code)
            } else {
                match user_token_of(*json) {
                    Some(t) => r matches Ok(s) && s@ == t,
                    None => r matches Err(LyricsError::Api(m)) && m@
                        == "Missing user_token in Musixmatch token.get response"@,
                }
            }
        }),
{
    let code = match get_root_status_code(json) {
        Some(c) => c,
        None => 0,
    };
    if code != 200 {
        let mut v: Vec<char> = Vec::new();
        push_str(&mut v, "Musixmatch token.get status ");
        push_str(&mut v, int_string(code).as_str());
        return Err(LyricsError::Api(string_from_chars(v.as_slice())));
    }
    let token = text_of(get_in(get_in(get(json, "message"), "body"), "user_token"));
    if let Some(t) = token {
        let v = chars_of(t.as_str());
        let (lo, hi) = trim_bounds(v.as_slice(), 0, v.len());
        assert(v@.subrange(0, v@.len() as int) =~= v@);
        if lo < hi {
            return Ok(string_from_chars(copy_range(v.as_slice(), lo, hi).as_slice()));
        }
    }
    Err(
        LyricsError::Api(
            string_from_chars(
                chars_of("Missing user_token in Musixmatch token.get response").as_slice(),
            ),
        ),
    )
}

} // verus!

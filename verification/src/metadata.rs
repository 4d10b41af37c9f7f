//! Track metadata as MPRIS players report it: building it from the
//! reported properties, recognising Spotify track ids, filtering blocked
//! players, and the playback status.

use vstd::prelude::*;
use crate::text::{
    chars_of, contains_chars, contains_seq, copy_range, lowercase, occurs_at, same_text,
    string_from_chars, to_lowercase, trim, trim_bounds,
};
use crate::types::TrackMetadata;

verus! {

/// The number of bytes that `c` takes in UTF-8.
pub open spec fn utf8_width(c: char) -> nat {
    if (c as u32) < 0x80 {
        1
    } else if (c as u32) < 0x800 {
        2
    } else if (c as u32) < 0x10000 {
        3
    } else {
        4
    }
}

/// The number of bytes that `s` takes in UTF-8 (`str::len`).
pub open spec fn utf8_len(s: Seq<char>) -> nat
    decreases s.len(),
{
    if s.len() == 0 {
        0
    } else {
        utf8_len(s.drop_last()) + utf8_width(s.last())
    }
}

/// The UTF-8 length of `v`, or `None` when it exceeds `limit`.
fn utf8_len_up_to(v: &[char], limit: usize) -> (r: Option<usize>)
    ensures
        match r {
            Some(n) => n == utf8_len(v@),
            None => utf8_len(v@) > limit,
        },
{
    let mut n: usize = 0;
    let mut i: usize = 0;
    while i < v.len()
        invariant
            0 <= i <= v@.len(),
            n == utf8_len(v@.take(i as int)),
            n <= limit,
        decreases v@.len() - i,
    {
        let c = v[i] as u32;
        let w: usize = if c < 0x80 {
            1
        } else if c < 0x800 {
            2
        } else if c < 0x10000 {
            3
        } else {
            4
        };
        assert(v@.take(i + 1).drop_last() =~= v@.take(i as int));
        if w > limit - n {
            proof {
                lemma_utf8_len_prefix(v@, i + 1);
            }
            return None;
        }
        n = n + w;
        i = i + 1;
    }
    assert(v@.take(i as int) =~= v@);
    Some(n)
}

/// A prefix takes no more bytes than the whole.
proof fn lemma_utf8_len_prefix(s: Seq<char>, k: int)
    requires
        0 <= k <= s.len(),
    ensures
        utf8_len(s.take(k)) <= utf8_len(s),
    decreases s.len() - k,
{
    if k < s.len() {
        lemma_utf8_len_prefix(s, k + 1);
        assert(s.take(k + 1).drop_last() =~= s.take(k));
    } else {
        assert(s.take(k) =~= s);
    }
}

/// The Spotify track id in `id`: `id` trimmed, when that is 22 bytes long.
pub open spec fn spotify_id_of(id: Seq<char>) -> Option<Seq<char>> {
    let t = trim(id);
    if utf8_len(t) == 22 {
        Some(t)
    } else {
        None
    }
}

/// Takes a Spotify track id as it is: trimmed, and only when it is 22 bytes
/// long.
pub fn normalize_spotify_id(id: &str) -> (r: Option<String>)
    ensures
        match r {
            Some(s) => spotify_id_of(id@) == Some(s@),
            None => spotify_id_of(id@) is None,
        },
{
    let v = chars_of(id);
    let (lo, hi) = trim_bounds(v.as_slice(), 0, v.len());
    assert(v@.subrange(0, v@.len() as int) =~= v@);
    let t = copy_range(v.as_slice(), lo, hi);
    match utf8_len_up_to(t.as_slice(), 22) {
        Some(22) => Some(string_from_chars(t.as_slice())),
        _ => None,
    }
}

/// Spotify id from an `index`-onward slice of `v`, as `normalize_spotify_id`
/// would give it for that slice.
fn spotify_id_of_range(v: &[char], from: usize, to: usize) -> (r: Option<String>)
    requires
        from <= to <= v@.len(),
    ensures
        match r {
            Some(s) => spotify_id_of(v@.subrange(from as int, to as int)) == Some(s@),
            None => spotify_id_of(v@.subrange(from as int, to as int)) is None,
        },
{
    let part = copy_range(v, from, to);
    let s = string_from_chars(part.as_slice());
    normalize_spotify_id(s.as_str())
}

/// The index of the first occurrence of `needle` in `hay`, if any.
pub open spec fn first_occurrence(hay: Seq<char>, needle: Seq<char>) -> Option<int> {
    if contains_seq(hay, needle) {
        Some(choose|i: int| occurs_at(hay, needle, i) && forall|j: int| 0 <= j < i ==> !occurs_at(hay, needle, j))
    } else {
        None
    }
}

/// Finds the first occurrence of `needle` in `hay`.
fn find_chars(hay: &[char], needle: &[char]) -> (r: Option<usize>)
    ensures
        match r {
            Some(i) => occurs_at(hay@, needle@, i as int) && forall|j: int| 0 <= j < i ==> !occurs_at(hay@, needle@, j),
            None => !contains_seq(hay@, needle@),
        },
{
    if needle.len() > hay.len() {
        return None;
    }
    if needle.len() == 0 {
        assert(hay@.subrange(0, 0) =~= needle@);
        return Some(0);
    }
    let last = hay.len() - needle.len();
    let mut i: usize = 0;
    while i <= last
        invariant
            last + needle@.len() == hay@.len(),
            needle@.len() > 0,
            hay@.len() == hay.len(),
            i <= last + 1,
            forall|j: int| 0 <= j < i ==> !occurs_at(hay@, needle@, j),
        decreases last + 1 - i,
    {
        if crate::text::matches_at(hay, needle, i) {
            return Some(i);
        }
        i = i + 1;
    }
    None
}


proof fn lemma_first_occurrence(hay: Seq<char>, needle: Seq<char>, i: int)
    requires
        occurs_at(hay, needle, i),
        forall|j: int| 0 <= j < i ==> !occurs_at(hay, needle, j),
    ensures
        first_occurrence(hay, needle) == Some(i),
{
    let c = choose|c: int| occurs_at(hay, needle, c) && forall|j: int| 0 <= j < c ==> !occurs_at(hay, needle, j);
    assert(occurs_at(hay, needle, c) && forall|j: int| 0 <= j < c ==> !occurs_at(hay, needle, j));
    if c < i {
        assert(!occurs_at(hay, needle, c));
    }
    if i < c {
        assert(!occurs_at(hay, needle, i));
    }
}

/// The Spotify id in a track URL: the text after the first
/// `https://open.spotify.com/track/`, up to the first `?`.
pub open spec fn spotify_id_of_url(url: Seq<char>) -> Option<Seq<char>> {
    let prefix = "https://open.spotify.com/track/"@;
    match first_occurrence(url, prefix) {
        Some(i) => {
            let rest = url.subrange(i + prefix.len(), url.len() as int);
            spotify_id_of(rest.subrange(0, crate::text::next_sep(rest, 0, '?')))
        },
        None => None,
    }
}

/// Index of the first `sep` at or after `from` in `v`, or `v`'s length.
fn find_sep(v: &[char], from: usize, sep: char) -> (r: usize)
    requires
        from <= v@.len(),
    ensures
        from <= r <= v@.len(),
        r == crate::text::next_sep(v@, from as int, sep),
{
    let mut j = from;
    while j < v.len() && v[j] != sep
        invariant
            from <= j <= v@.len(),
            crate::text::next_sep(v@, j as int, sep) == crate::text::next_sep(v@, from as int, sep),
        decreases v@.len() - j,
    {
        j = j + 1;
    }
    j
}

proof fn lemma_next_sep_shift(s: Seq<char>, off: int, i: int, sep: char)
    requires
        0 <= off <= s.len(),
        0 <= i <= s.len() - off,
    ensures
        crate::text::next_sep(s.subrange(off, s.len() as int), i, sep) + off
            == crate::text::next_sep(s, i + off, sep),
    decreases s.len() - off - i,
{
    if i < s.len() - off && s[i + off] != sep {
        lemma_next_sep_shift(s, off, i + 1, sep);
    }
}

/// Takes the Spotify id out of a track URL such as
/// `https://open.spotify.com/track/<id>?si=...`.
pub fn normalize_spotify_url(url: &str) -> (r: Option<String>)
    ensures
        match r {
            Some(s) => spotify_id_of_url(url@) == Some(s@),
            None => spotify_id_of_url(url@) is None,
        },
{
    let v = chars_of(url);
    let prefix = chars_of("https://open.spotify.com/track/");
    match find_chars(v.as_slice(), prefix.as_slice()) {
        Some(i) => {
            proof {
                lemma_first_occurrence(v@, prefix@, i as int);
                assert(i + prefix@.len() <= v@.len());
                assert(prefix@.len() == prefix.len());
                assert(i + prefix.len() <= v.len());
            }
            let start = i + prefix.len();
            let end = find_sep(v.as_slice(), start, '?');
            proof {
                lemma_next_sep_shift(v@, start as int, 0, '?');
                assert(v@.subrange(start as int, v@.len() as int).subrange(0, end - start)
                    =~= v@.subrange(start as int, end as int));
            }
            spotify_id_of_range(v.as_slice(), start, end)
        },
        None => None,
    }
}

/// Index just past the last `sep` in `s`, or 0 when there is none.
pub open spec fn after_last(s: Seq<char>, sep: char) -> int
    decreases s.len(),
{
    if s.len() == 0 {
        0
    } else if s.last() == sep {
        s.len() as int
    } else {
        after_last(s.drop_last(), sep)
    }
}

proof fn lemma_after_last_bounds(s: Seq<char>, sep: char)
    ensures
        0 <= after_last(s, sep) <= s.len(),
    decreases s.len(),
{
    if s.len() > 0 && s.last() != sep {
        lemma_after_last_bounds(s.drop_last(), sep);
    }
}

/// The Spotify id in an MPRIS track id: its last `/`-separated part (such as
/// in `/com/spotify/track/<id>`) when that is an id; otherwise the text
/// after the first `spotify:track:` (as in `spotify:track:<id>`).
pub open spec fn spotify_id_of_trackid(trackid: Seq<char>) -> Option<Seq<char>> {
    let tail = trackid.subrange(after_last(trackid, '/'), trackid.len() as int);
    let marker = "spotify:track:"@;
    let by_path = if tail.len() > 0 {
        spotify_id_of(tail)
    } else {
        None
    };
    match by_path {
        Some(id) => Some(id),
        None => match first_occurrence(trackid, marker) {
            Some(i) => spotify_id_of(trackid.subrange(i + marker.len(), trackid.len() as int)),
            None => None,
        },
    }
}

/// Takes the Spotify id out of an MPRIS track id.
pub fn normalize_spotify_trackid(trackid: &str) -> (r: Option<String>)
    ensures
        match r {
            Some(s) => spotify_id_of_trackid(trackid@) == Some(s@),
            None => spotify_id_of_trackid(trackid@) is None,
        },
{
    let v = chars_of(trackid);
    let mut k = v.len();
    assert(v@.take(k as int) =~= v@);
    while k > 0 && v[k - 1] != '/'
        invariant
            k <= v@.len(),
            after_last(v@.take(k as int), '/') == after_last(v@, '/'),
        decreases k,
    {
        assert(v@.take(k as int).drop_last() =~= v@.take(k - 1));
        k = k - 1;
    }
    proof {
        assert(v@.take(v@.len() as int) =~= v@);
        if k > 0 {
            assert(after_last(v@.take(k as int), '/') == k);
        } else {
            assert(v@.take(0).len() == 0);
        }
        lemma_after_last_bounds(v@, '/');
    }
    if k < v.len() {
        let by_path = spotify_id_of_range(v.as_slice(), k, v.len());
        if by_path.is_some() {
            return by_path;
        }
    }
    let marker = chars_of("spotify:track:");
    match find_chars(v.as_slice(), marker.as_slice()) {
        Some(i) => {
            proof {
                lemma_first_occurrence(v@, marker@, i as int);
            }
            spotify_id_of_range(v.as_slice(), i + marker.len(), v.len())
        },
        None => None,
    }
}

/// Whether a player is blocked: its service name, lowercased, contains one of
/// the blocked names, lowercased.
pub open spec fn blocked(service: Seq<char>, block_list: Seq<Seq<char>>) -> bool {
    exists|i: int| 0 <= i < block_list.len() && contains_seq(lowercase(service), lowercase(#[trigger] block_list[i]))
}

/// Whether a player service is blocked by the block list (case-insensitive
/// substring match).
pub fn is_blocked(service: &str, block_list: &[String]) -> (r: bool)
    ensures
        r == blocked(service@, block_list@.map_values(|b: String| b@)),
{
    let ghost bl = block_list@.map_values(|b: String| b@);
    let service_lower = chars_of(to_lowercase(service).as_str());
    let mut i: usize = 0;
    while i < block_list.len()
        invariant
            0 <= i <= block_list@.len(),
            bl == block_list@.map_values(|b: String| b@),
            service_lower@ == lowercase(service@),
            forall|j: int| 0 <= j < i ==> !contains_seq(lowercase(service@), lowercase(#[trigger] bl[j])),
        decreases block_list@.len() - i,
    {
        let blocked_lower = chars_of(to_lowercase(block_list[i].as_str()).as_str());
        if contains_chars(service_lower.as_slice(), blocked_lower.as_slice()) {
            assert(contains_seq(lowercase(service@), lowercase(bl[i as int])));
            return true;
        }
        i = i + 1;
    }
    false
}

/// Playback status values of the MPRIS specification.
#[derive(Debug, Clone, Copy, PartialEq, Eq, Structural)]
pub enum PlaybackStatus {
    Playing,
    Paused,
    Stopped,
}

pub open spec fn status_name(s: PlaybackStatus) -> Seq<char> {
    match s {
        PlaybackStatus::Playing => "Playing"@,
        PlaybackStatus::Paused => "Paused"@,
        PlaybackStatus::Stopped => "Stopped"@,
    }
}

impl PlaybackStatus {
    /// The status an MPRIS status string names; anything but `Playing` and
    /// `Paused` counts as `Stopped`.
    pub fn from_str(s: &str) -> (r: Self)
        ensures
            r == (if s@ == "Playing"@ {
                PlaybackStatus::Playing
            } else if s@ == "Paused"@ {
                PlaybackStatus::Paused
            } else {
                PlaybackStatus::Stopped
            }),
    {
        if same_text(s, "Playing") {
            PlaybackStatus::Playing
        } else if same_text(s, "Paused") {
            PlaybackStatus::Paused
        } else {
            PlaybackStatus::Stopped
        }
    }

    /// The MPRIS string of the status.
    pub fn as_str(&self) -> (r: &'static str)
        ensures
            r@ == status_name(*self),
    {
        match self {
            PlaybackStatus::Playing => "Playing",
            PlaybackStatus::Paused => "Paused",
            PlaybackStatus::Stopped => "Stopped",
        }
    }
}

impl Default for PlaybackStatus {
    fn default() -> (r: Self)
        ensures
            r == PlaybackStatus::Stopped,
    {
        PlaybackStatus::Stopped
    }
}

/// Reading back the string of a status gives the status again.
pub proof fn lemma_status_roundtrip(s: PlaybackStatus)
    ensures
        (if status_name(s) == "Playing"@ {
            PlaybackStatus::Playing
        } else if status_name(s) == "Paused"@ {
            PlaybackStatus::Paused
        } else {
            PlaybackStatus::Stopped
        }) == s,
{
    reveal_strlit("Playing");
    reveal_strlit("Paused");
    reveal_strlit("Stopped");
    assert("Paused"@.len() != "Playing"@.len());
    assert("Stopped"@[0] != "Playing"@[0]);
    assert("Stopped"@.len() != "Paused"@.len());
}


/// The view of an optional string.
pub open spec fn opt_view(o: Option<String>) -> Option<Seq<char>> {
    match o {
        Some(s) => Some(s@),
        None => None,
    }
}

/// A track length reported in microseconds, in milliseconds; negative
/// lengths are dropped.
pub open spec fn length_ms_of(us: Option<i64>) -> Option<u64> {
    match us {
        Some(x) => if x >= 0 {
            Some((x / 1000) as u64)
        } else {
            None
        },
        None => None,
    }
}

/// The Spotify id of a track: from its URL, else from its MPRIS track id.
pub open spec fn spotify_id_from(url: Option<Seq<char>>, trackid: Option<Seq<char>>) -> Option<Seq<char>> {
    let from_url = match url {
        Some(u) => spotify_id_of_url(u),
        None => None,
    };
    match from_url {
        Some(id) => Some(id),
        None => match trackid {
            Some(t) => spotify_id_of_trackid(t),
            None => None,
        },
    }
}

/// The first entry of a list property, else a plain string property, else
/// the empty string.
pub open spec fn first_entry(list: Option<Seq<String>>, text: Option<String>) -> Seq<char> {
    match list {
        Some(l) if l.len() > 0 => l[0]@,
        _ => match text {
            Some(t) => t@,
            None => Seq::empty(),
        },
    }
}

/// The properties of an MPRIS metadata map that the viewer reads, as plain
/// values. A list property holds `Some` only when all its entries are
/// strings.
#[derive(Debug, Clone, Default)]
pub struct MetadataFields {
    /// `xesam:title`.
    pub title: Option<String>,
    /// `xesam:artist` as a list of strings.
    pub artist_list: Option<Vec<String>>,
    /// `xesam:artist` as a single string.
    pub artist: Option<String>,
    /// `xesam:album` as a list of strings.
    pub album_list: Option<Vec<String>>,
    /// `xesam:album` as a single string.
    pub album: Option<String>,
    /// `mpris:length`, in microseconds.
    pub length_us: Option<i64>,
    /// `xesam:url`.
    pub url: Option<String>,
    /// `mpris:trackid`.
    pub trackid: Option<String>,
}

fn take_first(list: Option<Vec<String>>, text: Option<String>) -> (r: String)
    ensures
        r@ == first_entry(match list {
            Some(l) => Some(l@),
            None => None,
        }, text),
{
    match list {
        Some(l) if l.len() > 0 => l[0].clone(),
        _ => match text {
            Some(t) => t,
            None => String::new(),
        },
    }
}

fn length_from_us(us: Option<i64>) -> (r: Option<u64>)
    ensures
        r == length_ms_of(us),
{
    match us {
        Some(x) => if x >= 0 {
            Some((x / 1000) as u64)
        } else {
            None
        },
        None => None,
    }
}

fn spotify_id_from_exec(url: &Option<String>, trackid: &Option<String>) -> (r: Option<String>)
    ensures
        opt_view(r) == spotify_id_from(opt_view(*url), opt_view(*trackid)),
{
    let from_url = match url {
        Some(u) => normalize_spotify_url(u.as_str()),
        None => None,
    };
    match from_url {
        Some(id) => Some(id),
        None => match trackid {
            Some(t) => normalize_spotify_trackid(t.as_str()),
            None => None,
        },
    }
}

/// Builds track metadata from the properties of an MPRIS metadata map. The
/// artist and album are the first entry of their list, else their string,
/// else empty; the length is converted to milliseconds; the Spotify id comes
/// from the URL, else from the track id. `isrc` is what was read from the
/// local file, when that lookup is enabled.
pub fn extract_metadata(fields: MetadataFields, isrc: Option<String>) -> (r: TrackMetadata)
    ensures
        r.title@ == (match fields.title {
            Some(t) => t@,
            None => Seq::empty(),
        }),
        r.artist@ == first_entry(match fields.artist_list {
            Some(l) => Some(l@),
            None => None,
        }, fields.artist),
        r.album@ == first_entry(match fields.album_list {
            Some(l) => Some(l@),
            None => None,
        }, fields.album),
        r.length_ms == length_ms_of(fields.length_us),
        opt_view(r.spotify_id) == spotify_id_from(opt_view(fields.url), opt_view(fields.trackid)),
        r.isrc == isrc,
        r.itunes_id is None,
{
    let spotify_id = spotify_id_from_exec(&fields.url, &fields.trackid);
    TrackMetadata {
        title: match fields.title {
            Some(t) => t,
            None => String::new(),
        },
        artist: take_first(fields.artist_list, fields.artist),
        album: take_first(fields.album_list, fields.album),
        length_ms: length_from_us(fields.length_us),
        spotify_id,
        isrc,
        itunes_id: None,
    }
}

/// MPRIS metadata in the typed form a player proxy returns.
#[derive(Debug, Clone, Default)]
pub struct MprisMetadata {
    pub title: Option<String>,
    pub artist: Option<Vec<String>>,
    pub album: Option<Vec<String>>,
    /// Track length in microseconds.
    pub length: Option<i64>,
    pub trackid: Option<String>,
    pub url: Option<String>,
}

impl TrackMetadata {
    /// Track metadata from typed MPRIS metadata: the first artist and album
    /// (else empty), the length in milliseconds, and the Spotify id from the
    /// URL, else from the track id. `isrc` is what was read from the local
    /// file, when that lookup is enabled.
    pub fn from_mpris(md: MprisMetadata, isrc: Option<String>) -> (r: TrackMetadata)
        ensures
            r.title@ == (match md.title {
                Some(t) => t@,
                None => Seq::empty(),
            }),
            r.artist@ == first_entry(match md.artist {
                Some(l) => Some(l@),
                None => None,
            }, None),
            r.album@ == first_entry(match md.album {
                Some(l) => Some(l@),
                None => None,
            }, None),
            r.length_ms == length_ms_of(md.length),
            opt_view(r.spotify_id) == spotify_id_from(opt_view(md.url), opt_view(md.trackid)),
            r.isrc == isrc,
            r.itunes_id is None,
    {
        extract_metadata(
            MetadataFields {
                title: md.title,
                artist_list: md.artist,
                artist: None,
                album_list: md.album,
                album: None,
                length_us: md.length,
                url: md.url,
                trackid: md.trackid,
            },
            isrc,
        )
    }
}

/// `s` without the prefix `p`, when it starts with it (`str::strip_prefix`).
pub open spec fn strip_prefix(s: Seq<char>, p: Seq<char>) -> Option<Seq<char>> {
    if crate::text::starts_with_seq(s, p) {
        Some(s.skip(p.len() as int))
    } else {
        None
    }
}

fn strip_prefix_chars(v: &Vec<char>, p: &str) -> (r: Option<Vec<char>>)
    ensures
        match r {
            Some(x) => strip_prefix(v@, p@) == Some(x@),
            None => strip_prefix(v@, p@) is None,
        },
{
    let pv = chars_of(p);
    if crate::text::matches_at(v.as_slice(), pv.as_slice(), 0) {
        let rest = copy_range(v.as_slice(), pv.len(), v.len());
        assert(rest@ =~= v@.skip(pv@.len() as int));
        Some(rest)
    } else {
        None
    }
}

/// The view of an optional text.
pub open spec fn opt_str_view(s: Option<&str>) -> Option<Seq<char>> {
    match s {
        Some(t) => Some(t@),
        None => None,
    }
}

/// The path of the local file whose tags are searched for an ISRC, still
/// percent-encoded: a `file://` URL without its prefix, or a path that
/// starts with `/` as it is; nothing for other URLs.
pub open spec fn isrc_path_of(url: Option<Seq<char>>) -> Option<Seq<char>> {
    match url {
        Some(u) => match strip_prefix(u, "file://"@) {
            Some(path) => Some(path),
            None => if u.len() > 0 && u[0] == '/' {
                Some(u)
            } else {
                None
            },
        },
        None => None,
    }
}

/// What `urlencoding::decode` gives for a text: its `%xx` escapes decoded;
/// none when the decoded bytes are not UTF-8.
pub uninterp spec fn url_decoded(s: Seq<char>) -> Option<Seq<char>>;

/// Percent-decodes a text with `urlencoding::decode`. Its result is named
/// `url_decoded`; a text without `%` comes back unchanged (the crate hands
/// such a text back as it is).
#[verifier::external_body]
fn url_decode(s: &str) -> (r: Option<String>)
    ensures
        opt_view(r) == url_decoded(s@),
        !s@.contains('%') ==> opt_view(r) == Some(s@),
{
    urlencoding::decode(s).ok().map(|d| d.into_owned())
}

/// Finds the local file whose tags give the track's ISRC: the path picked
/// by `isrc_path_of`, percent-decoded; none when there is no such path or
/// it does not decode.
pub fn isrc_file_path(url: Option<&str>) -> (r: Option<String>)
    ensures
        opt_view(r) == match isrc_path_of(opt_str_view(url)) {
            Some(p) => url_decoded(p),
            None => None,
        },
{
    let u = match url {
        Some(u) => u,
        None => {
            return None;
        },
    };
    let v = chars_of(u);
    let path = match strip_prefix_chars(&v, "file://") {
        Some(path) => string_from_chars(path.as_slice()),
        None => {
            if v.len() > 0 && v[0] == '/' {
                string_from_chars(v.as_slice())
            } else {
                return None;
            }
        },
    };
    url_decode(path.as_str())
}

} // verus!

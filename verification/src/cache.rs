//! The lyrics cache's own rules: how keys and track identifiers are
//! normalized, how cached payloads are compressed, and when a cached entry's
//! duration still fits the track.

use vstd::prelude::*;
use std::io::Cursor;
use vstd::utf8::{decode_utf8, encode_utf8, valid_utf8};
use crate::metadata::opt_view;
use crate::providers::{format_name, LyricsFormat, ProviderResult};
use crate::lrc::{all_unworded, lrc_entries, parse_synced_lyrics, timed_texts};
use crate::text::same_text;
use crate::types::{LyricLine, LyricsError, TrackMatchInfo};
use crate::text::{
    chars_of, copy_range, eq_ignore_ascii_case, lowercase, same_text_ignore_ascii_case,
    string_from_chars, to_lowercase, to_uppercase, trim, trim_bounds, uppercase, views,
};

verus! {

#[verifier::external_type_specification]
#[verifier::external_body]
pub struct ExIoError(std::io::Error);

/// What `zstd::stream::decode_all` gives for `data`: the decompressed bytes,
/// or `None` when it fails.
pub uninterp spec fn zstd_decoded(data: Seq<u8>) -> Option<Seq<u8>>;

/// What `zstd::stream::encode_all` at level 3 gives for `data`: the
/// compressed frame, or `None` when the compressor reports an error (which
/// it does only when the zstd library fails, such as for lack of memory).
pub uninterp spec fn zstd_encoded(data: Seq<u8>) -> Option<Seq<u8>>;

/// Compresses `data` into one zstd frame at level 3
/// (`zstd::stream::encode_all`). Claimed: the frame is the one named
/// `zstd_encoded(data)`, an error means that name is `None`, and a frame it
/// returns decompresses back to `data`.
#[verifier::external_body]
fn zstd_encode(data: &[u8]) -> (r: Result<Vec<u8>, std::io::Error>)
    ensures
        match r {
            Ok(frame) => zstd_encoded(data@) == Some(frame@) && zstd_decoded(frame@) == Some(data@),
            Err(_) => zstd_encoded(data@) is None,
        },
{
    zstd::stream::encode_all(Cursor::new(data), 3)
}

/// Decompresses a zstd stream (`zstd::stream::decode_all`).
#[verifier::external_body]
fn zstd_decode(data: &[u8]) -> (r: Option<Vec<u8>>)
    ensures
        match r {
            Some(out) => zstd_decoded(data@) == Some(out@),
            None => zstd_decoded(data@) is None,
        },
{
    zstd::stream::decode_all(Cursor::new(data)).ok()
}

/// Decodes UTF-8 (`String::from_utf8`): the characters the bytes encode, or
/// `None` when they are not valid UTF-8.
#[verifier::external_body]
fn utf8_string(bytes: Vec<u8>) -> (r: Option<String>)
    ensures
        match r {
            Some(s) => valid_utf8(bytes@) && s@ == decode_utf8(bytes@),
            None => !valid_utf8(bytes@),
        },
{
    String::from_utf8(bytes).ok()
}

/// The cache could not store a payload.
#[derive(Debug, Clone, Copy, PartialEq, Eq)]
pub enum CacheError {
    /// Compression failed.
    Compression,
}

/// Compresses raw lyrics for storage (zstd, level 3).
pub fn compress_raw_lyrics(raw: &str) -> (r: Result<Vec<u8>, CacheError>)
    ensures
        match r {
            Ok(blob) => zstd_encoded(encode_utf8(raw@)) == Some(blob@) && zstd_decoded(blob@)
                == Some(encode_utf8(raw@)),
            Err(e) => e == CacheError::Compression && zstd_encoded(encode_utf8(raw@)) is None,
        },
{
    match zstd_encode(raw.as_bytes()) {
        Ok(frame) => Ok(frame),
        Err(_) => Err(CacheError::Compression),
    }
}

/// What a stored payload decompresses to: empty for an empty payload, else
/// the text of the decompressed bytes, or none when they do not decompress or
/// are not UTF-8.
pub open spec fn decompressed_text(raw: Seq<u8>) -> Option<Seq<char>> {
    if raw.len() == 0 {
        Some(Seq::empty())
    } else {
        match zstd_decoded(raw) {
            Some(bytes) => if valid_utf8(bytes) {
                Some(decode_utf8(bytes))
            } else {
                None
            },
            None => None,
        }
    }
}

/// Decompresses a stored payload back into text.
pub fn decompress_raw_lyrics(raw: Vec<u8>) -> (r: Option<String>)
    ensures
        opt_view(r) == decompressed_text(raw@),
{
    if raw.len() == 0 {
        return Some(String::new());
    }
    match zstd_decode(raw.as_slice()) {
        Some(bytes) => utf8_string(bytes),
        None => None,
    }
}

/// Cache round trip: a payload that compression produced decompresses to the
/// text it was made from.
pub proof fn lemma_cache_roundtrip(raw: Seq<char>, blob: Seq<u8>)
    requires
        blob.len() > 0,
        zstd_decoded(blob) == Some(encode_utf8(raw)),
    ensures
        decompressed_text(blob) == Some(raw),
{
    vstd::utf8::encode_utf8_valid_utf8(raw);
    vstd::utf8::encode_utf8_decode_utf8(raw);
}

/// A cache key part: trimmed and lowercased.
pub fn normalize(s: &str) -> (r: String)
    ensures
        r@ == lowercase(trim(s@)),
{
    let v = chars_of(s);
    let (lo, hi) = trim_bounds(v.as_slice(), 0, v.len());
    assert(v@.subrange(0, v@.len() as int) =~= v@);
    let t = string_from_chars(copy_range(v.as_slice(), lo, hi).as_slice());
    to_lowercase(t.as_str())
}

/// An ISRC for the cache: trimmed and uppercased; none when that is empty.
pub open spec fn isrc_key(s: Seq<char>) -> Option<Seq<char>> {
    let u = uppercase(trim(s));
    if u.len() == 0 {
        None
    } else {
        Some(u)
    }
}

/// Normalizes an ISRC: trimmed and uppercased, none when empty.
pub fn normalize_isrc(s: &str) -> (r: Option<String>)
    ensures
        opt_view(r) == isrc_key(s@),
{
    let v = chars_of(s);
    let (lo, hi) = trim_bounds(v.as_slice(), 0, v.len());
    assert(v@.subrange(0, v@.len() as int) =~= v@);
    let t = string_from_chars(copy_range(v.as_slice(), lo, hi).as_slice());
    let u = to_uppercase(t.as_str());
    if u.as_str().is_empty() {
        None
    } else {
        Some(u)
    }
}

/// A track id for the cache: trimmed; none when that is empty.
pub open spec fn track_id_key(s: Seq<char>) -> Option<Seq<char>> {
    let t = trim(s);
    if t.len() == 0 {
        None
    } else {
        Some(t)
    }
}

/// Normalizes a Spotify or iTunes id: trimmed, none when empty.
pub fn normalize_track_id(s: &str) -> (r: Option<String>)
    ensures
        opt_view(r) == track_id_key(s@),
{
    let v = chars_of(s);
    let (lo, hi) = trim_bounds(v.as_slice(), 0, v.len());
    assert(v@.subrange(0, v@.len() as int) =~= v@);
    if lo == hi {
        return None;
    }
    Some(string_from_chars(copy_range(v.as_slice(), lo, hi).as_slice()))
}

/// The largest difference, in milliseconds, between a track's duration and
/// a cached entry's before the entry no longer counts as the same recording.
pub const DURATION_TOLERANCE_MS: u64 = 2000;

/// Whether a cached entry's duration fits the queried one: within the
/// tolerance when both are known, and always when either is unknown.
pub open spec fn durations_match(query: Option<u64>, entry: Option<u64>) -> bool {
    match (query, entry) {
        (Some(q), Some(e)) => (if q >= e {
            q - e
        } else {
            e - q
        }) <= DURATION_TOLERANCE_MS,
        _ => true,
    }
}

/// Checks whether a cached entry's duration fits the queried one.
pub fn duration_matches(query_ms: Option<u64>, entry_ms: Option<u64>) -> (r: bool)
    ensures
        r == durations_match(query_ms, entry_ms),
{
    match (query_ms, entry_ms) {
        (Some(q), Some(e)) => {
            let diff = if q >= e {
                q - e
            } else {
                e - q
            };
            diff <= DURATION_TOLERANCE_MS
        },
        _ => true,
    }
}

/// Keys of a list of identifiers: each normalized by `key`, empty ones
/// dropped, and only the first of equal keys kept.
pub open spec fn dedup_keys(ids: Seq<Seq<char>>, key: spec_fn(Seq<char>) -> Option<Seq<char>>) -> Seq<Seq<char>>
    decreases ids.len(),
{
    if ids.len() == 0 {
        Seq::empty()
    } else {
        let prev = dedup_keys(ids.drop_last(), key);
        match key(ids.last()) {
            Some(k) => if prev.contains(k) {
                prev
            } else {
                prev.push(k)
            },
            None => prev,
        }
    }
}

/// Normalizes ISRCs (`uppercase`) or track ids (`!uppercase`) for storage,
/// dropping empty and repeated ones and keeping first occurrences in order.
pub fn normalized_id_list(ids: &[String], uppercase_ids: bool) -> (r: Vec<String>)
    ensures
        views(r@) == dedup_keys(
            views(ids@),
            if uppercase_ids {
                |s: Seq<char>| isrc_key(s)
            } else {
                |s: Seq<char>| track_id_key(s)
            },
        ),
{
    let ghost key = if uppercase_ids {
        |s: Seq<char>| isrc_key(s)
    } else {
        |s: Seq<char>| track_id_key(s)
    };
    let ghost iv = views(ids@);
    let mut out: Vec<String> = Vec::new();
    let mut i: usize = 0;
    while i < ids.len()
        invariant
            0 <= i <= ids@.len(),
            iv == views(ids@),
            key == (if uppercase_ids {
                |s: Seq<char>| isrc_key(s)
            } else {
                |s: Seq<char>| track_id_key(s)
            }),
            views(out@) == dedup_keys(iv.take(i as int), key),
        decreases ids@.len() - i,
    {
        assert(iv.take(i + 1).drop_last() =~= iv.take(i as int));
        let norm = if uppercase_ids {
            normalize_isrc(ids[i].as_str())
        } else {
            normalize_track_id(ids[i].as_str())
        };
        assert(opt_view(norm) == key(iv.take(i + 1).last()));
        if let Some(k) = norm {
            if !contains_string(&out, &k) {
                let ghost before = views(out@);
                out.push(k);
                assert(views(out@) =~= before.push(k@));
            }
        }
        i = i + 1;
    }
    assert(iv.take(i as int) =~= iv);
    out
}

/// Whether `list` holds a string equal to `s`.
pub fn contains_string(list: &Vec<String>, s: &String) -> (r: bool)
    ensures
        r == views(list@).contains(s@),
{
    let mut i: usize = 0;
    while i < list.len()
        invariant
            0 <= i <= list@.len(),
            forall|j: int| 0 <= j < i ==> list@[j]@ != s@,
        decreases list@.len() - i,
    {
        if list[i] == *s {
            assert(views(list@)[i as int] == s@);
            return true;
        }
        i = i + 1;
    }
    assert forall|j: int| 0 <= j < views(list@).len() implies views(list@)[j] != s@ by {
        assert(views(list@)[j] == list@[j]@);
    }
    false
}

/// `ids` with `extra` added at the end, unless it is absent or already
/// present up to ASCII case.
pub open spec fn with_extra_id(ids: Seq<Seq<char>>, extra: Option<Seq<char>>) -> Seq<Seq<char>> {
    match extra {
        Some(e) => if exists|i: int| 0 <= i < ids.len() && eq_ignore_ascii_case(#[trigger] ids[i], e) {
            ids
        } else {
            ids.push(e)
        },
        None => ids,
    }
}

/// Adds the player's own identifier to a provider's list, unless the list
/// already holds it (ignoring ASCII case).
pub fn merge_track_id(ids: &[String], extra: &Option<String>) -> (r: Vec<String>)
    ensures
        views(r@) == with_extra_id(views(ids@), opt_view(*extra)),
{
    let mut out: Vec<String> = Vec::new();
    let mut found = false;
    let mut i: usize = 0;
    while i < ids.len()
        invariant
            0 <= i <= ids@.len(),
            views(out@) == views(ids@).take(i as int),
            found == (match extra {
                Some(e) => exists|j: int| 0 <= j < i && eq_ignore_ascii_case(#[trigger] views(ids@)[j], e@),
                None => false,
            }),
        decreases ids@.len() - i,
    {
        assert(views(ids@)[i as int] == ids@[i as int]@);
        if let Some(e) = extra {
            if same_text_ignore_ascii_case(ids[i].as_str(), e.as_str()) {
                found = true;
            }
        }
        out.push(ids[i].clone());
        assert(views(ids@).take(i + 1) =~= views(ids@).take(i as int).push(ids@[i as int]@));
        assert(views(out@) =~= views(ids@).take(i + 1));
        i = i + 1;
    }
    assert(views(ids@).take(i as int) =~= views(ids@));
    if let Some(e) = extra {
        if !found {
            let ghost before = views(out@);
            out.push(e.clone());
            assert(views(out@) =~= before.push(e@));
        }
    }
    out
}

/// A cache entry ready to be written: normalized keys, the compressed
/// lyrics and the normalized identifiers to file them under.
#[derive(Debug, Clone)]
pub struct StoreRecord {
    pub artist: String,
    pub title: String,
    pub album: String,
    pub duration_ms: Option<u64>,
    pub format: LyricsFormat,
    pub blob: Vec<u8>,
    pub isrcs: Vec<String>,
    pub spotify_ids: Vec<String>,
    pub itunes_ids: Vec<String>,
}

/// Prepares lyrics for the cache: artist, title and album normalized, the
/// raw text compressed, the identifiers normalized with empty and repeated
/// ones dropped. Fails only when compression fails, in which case nothing
/// is cached.
pub fn prepare_store(
    artist: &str,
    title: &str,
    album: &str,
    duration_ms: Option<u64>,
    format: LyricsFormat,
    raw: &str,
    isrcs: &[String],
    spotify_ids: &[String],
    itunes_ids: &[String],
) -> (r: Result<StoreRecord, CacheError>)
    ensures
        match r {
            Ok(rec) => {
                &&& rec.artist@ == lowercase(trim(artist@))
                &&& rec.title@ == lowercase(trim(title@))
                &&& rec.album@ == lowercase(trim(album@))
                &&& rec.duration_ms == duration_ms
                &&& rec.format == format
                &&& zstd_encoded(encode_utf8(raw@)) == Some(rec.blob@)
                &&& zstd_decoded(rec.blob@) == Some(encode_utf8(raw@))
                &&& views(rec.isrcs@) == dedup_keys(views(isrcs@), |s: Seq<char>| isrc_key(s))
                &&& views(rec.spotify_ids@) == dedup_keys(
                    views(spotify_ids@),
                    |s: Seq<char>| track_id_key(s),
                )
                &&& views(rec.itunes_ids@) == dedup_keys(
                    views(itunes_ids@),
                    |s: Seq<char>| track_id_key(s),
                )
                &&& views(rec.isrcs@).no_duplicates()
                &&& views(rec.spotify_ids@).no_duplicates()
                &&& views(rec.itunes_ids@).no_duplicates()
            },
            Err(e) => e == CacheError::Compression && zstd_encoded(encode_utf8(raw@)) is None,
        },
{
    let blob = match compress_raw_lyrics(raw) {
        Ok(b) => b,
        Err(e) => {
            return Err(e);
        },
    };
    proof {
        lemma_dedup_keys_exact(views(isrcs@), |s: Seq<char>| isrc_key(s));
        lemma_dedup_keys_exact(views(spotify_ids@), |s: Seq<char>| track_id_key(s));
        lemma_dedup_keys_exact(views(itunes_ids@), |s: Seq<char>| track_id_key(s));
    }
    Ok(
        StoreRecord {
            artist: normalize(artist),
            title: normalize(title),
            album: normalize(album),
            duration_ms,
            format,
            blob,
            isrcs: normalized_id_list(isrcs, true),
            spotify_ids: normalized_id_list(spotify_ids, false),
            itunes_ids: normalized_id_list(itunes_ids, false),
        },
    )
}

/// One lookup of the cache.
#[derive(Debug, Clone, PartialEq, Eq)]
pub enum CacheLookup {
    /// By normalized ISRC.
    Isrc(String),
    /// By normalized artist, title and album.
    Alias(String, String, String),
    /// By normalized Spotify id.
    Spotify(String),
    /// By normalized iTunes id.
    Itunes(String),
    /// By normalized artist and title, on any album.
    ArtistTitle(String, String),
}

/// The lookups of a cache read, as plain values.
pub open spec fn lookup_view(l: CacheLookup) -> (int, Seq<char>, Seq<char>, Seq<char>) {
    match l {
        CacheLookup::Isrc(s) => (0, s@, Seq::empty(), Seq::empty()),
        CacheLookup::Alias(a, t, al) => (1, a@, t@, al@),
        CacheLookup::Spotify(s) => (2, s@, Seq::empty(), Seq::empty()),
        CacheLookup::Itunes(s) => (3, s@, Seq::empty(), Seq::empty()),
        CacheLookup::ArtistTitle(a, t) => (4, a@, t@, Seq::empty()),
    }
}

/// The lookups of a cache read, in the order they are tried: by ISRC; by
/// artist, title and album; by Spotify id; by iTunes id; by artist and title
/// on any album. An identifier lookup is made only when the identifier
/// normalizes to something, the last only when artist and title do.
pub open spec fn lookup_plan_of(
    artist: Seq<char>,
    title: Seq<char>,
    album: Seq<char>,
    isrc: Option<Seq<char>>,
    spotify_id: Option<Seq<char>>,
    itunes_id: Option<Seq<char>>,
) -> Seq<(int, Seq<char>, Seq<char>, Seq<char>)> {
    let a = lowercase(trim(artist));
    let t = lowercase(trim(title));
    let al = lowercase(trim(album));
    let by_id = |kind: int, key: Option<Seq<char>>|
        match key {
            Some(k) => seq![(kind, k, Seq::<char>::empty(), Seq::<char>::empty())],
            None => Seq::empty(),
        };
    by_id(0, match isrc {
        Some(s) => isrc_key(s),
        None => None,
    }) + seq![(1, a, t, al)] + by_id(2, match spotify_id {
        Some(s) => track_id_key(s),
        None => None,
    }) + by_id(3, match itunes_id {
        Some(s) => track_id_key(s),
        None => None,
    }) + if a.len() > 0 && t.len() > 0 {
        seq![(4, a, t, Seq::<char>::empty())]
    } else {
        Seq::empty()
    }
}

/// Plans the lookups of a cache read.
pub fn lookup_plan(
    artist: &str,
    title: &str,
    album: &str,
    isrc: &Option<String>,
    spotify_id: &Option<String>,
    itunes_id: &Option<String>,
) -> (r: Vec<CacheLookup>)
    ensures
        r@.map_values(|l: CacheLookup| lookup_view(l)) == lookup_plan_of(
            artist@,
            title@,
            album@,
            opt_view(*isrc),
            opt_view(*spotify_id),
            opt_view(*itunes_id),
        ),
{
    let a = normalize(artist);
    let t = normalize(title);
    let al = normalize(album);
    let mut out: Vec<CacheLookup> = Vec::new();
    if let Some(s) = isrc {
        if let Some(k) = normalize_isrc(s.as_str()) {
            out.push(CacheLookup::Isrc(k));
        }
    }
    out.push(CacheLookup::Alias(a.clone(), t.clone(), al));
    if let Some(s) = spotify_id {
        if let Some(k) = normalize_track_id(s.as_str()) {
            out.push(CacheLookup::Spotify(k));
        }
    }
    if let Some(s) = itunes_id {
        if let Some(k) = normalize_track_id(s.as_str()) {
            out.push(CacheLookup::Itunes(k));
        }
    }
    if !a.as_str().is_empty() && !t.as_str().is_empty() {
        out.push(CacheLookup::ArtistTitle(a, t));
    }
    assert(out@.map_values(|l: CacheLookup| lookup_view(l)) =~= lookup_plan_of(
        artist@,
        title@,
        album@,
        opt_view(*isrc),
        opt_view(*spotify_id),
        opt_view(*itunes_id),
    ));
    out
}

/// The first candidate whose id is positive and whose duration fits the
/// queried one; candidates are `(id, duration)` pairs in the order the
/// cache listed them.
pub open spec fn first_fitting(query_ms: Option<u64>, rows: Seq<(i64, Option<u64>)>, i: int) -> Option<
    i64,
>
    decreases rows.len() - i,
{
    if i < 0 || i >= rows.len() {
        None
    } else if durations_match(query_ms, rows[i].1) && rows[i].0 > 0 {
        Some(rows[i].0)
    } else {
        first_fitting(query_ms, rows, i + 1)
    }
}

/// Picks the entry that lyrics for a track with duration `query_ms` are
/// filed under, among the entries for the same artist and title.
pub fn pick_fitting_row(query_ms: Option<u64>, rows: &[(i64, Option<u64>)]) -> (r: Option<i64>)
    ensures
        r == first_fitting(query_ms, rows@, 0),
{
    let mut i: usize = 0;
    while i < rows.len()
        invariant
            i <= rows@.len(),
            first_fitting(query_ms, rows@, 0) == first_fitting(query_ms, rows@, i as int),
        decreases rows@.len() - i,
    {
        let (id, dur) = rows[i];
        if duration_matches(query_ms, dur) && id > 0 {
            return Some(id);
        }
        i = i + 1;
    }
    None
}

/// The identifier questions a store asks, in order: each of the record's
/// ISRCs, then its Spotify ids, then its iTunes ids, as `(kind, value)`.
pub open spec fn store_identifiers_of(rec: StoreRecord) -> Seq<(Seq<char>, Seq<char>)> {
    views(rec.isrcs@).map_values(|v: Seq<char>| ("isrc"@, v)) + views(rec.spotify_ids@).map_values(
        |v: Seq<char>| ("spotify"@, v),
    ) + views(rec.itunes_ids@).map_values(|v: Seq<char>| ("itunes"@, v))
}

/// Lists the identifier questions of a store (see `store_identifiers_of`).
pub fn store_identifiers(rec: &StoreRecord) -> (r: Vec<(String, String)>)
    ensures
        r@.map_values(|p: (String, String)| (p.0@, p.1@)) == store_identifiers_of(*rec),
{
    let mut out: Vec<(String, String)> = Vec::new();
    let ghost f = |p: (String, String)| (p.0@, p.1@);
    let lists: [(&str, &Vec<String>); 3] = [
        ("isrc", &rec.isrcs),
        ("spotify", &rec.spotify_ids),
        ("itunes", &rec.itunes_ids),
    ];
    let mut k: usize = 0;
    while k < 3
        invariant
            k <= 3,
            f == (|p: (String, String)| (p.0@, p.1@)),
            lists@.len() == 3,
            lists@[0].0@ == "isrc"@ && lists@[0].1 == rec.isrcs,
            lists@[1].0@ == "spotify"@ && lists@[1].1 == rec.spotify_ids,
            lists@[2].0@ == "itunes"@ && lists@[2].1 == rec.itunes_ids,
            out@.map_values(f) == (if k == 0 {
                Seq::empty()
            } else if k == 1 {
                views(rec.isrcs@).map_values(|v: Seq<char>| ("isrc"@, v))
            } else if k == 2 {
                views(rec.isrcs@).map_values(|v: Seq<char>| ("isrc"@, v)) + views(
                    rec.spotify_ids@,
                ).map_values(|v: Seq<char>| ("spotify"@, v))
            } else {
                store_identifiers_of(*rec)
            }),
        decreases 3 - k,
    {
        let (kind, ids) = lists[k];
        let ghost before = out@.map_values(f);
        let mut i: usize = 0;
        while i < ids.len()
            invariant
                i <= ids@.len(),
                f == (|p: (String, String)| (p.0@, p.1@)),
                out@.map_values(f) == before + views(ids@).take(i as int).map_values(
                    |v: Seq<char>| (kind@, v),
                ),
            decreases ids@.len() - i,
        {
            let ghost prev = out@;
            let kind_text = String::from_str(kind);
            let value = ids[i].clone();
            assert(value@ == ids@[i as int]@);
            out.push((kind_text, value));
            proof {
                crate::layout::lemma_map_push(prev, out@.last(), f);
                assert(f(out@.last()) == (kind@, ids@[i as int]@));
                assert(views(ids@).take(i + 1) =~= views(ids@).take(i as int).push(ids@[i as int]@));
                assert(views(ids@).take(i + 1).map_values(|v: Seq<char>| (kind@, v)) =~= views(
                    ids@,
                ).take(i as int).map_values(|v: Seq<char>| (kind@, v)).push((kind@, ids@[i as int]@)));
            }
            i = i + 1;
        }
        proof {
            assert(views(ids@).take(i as int) =~= views(ids@));
            reveal_strlit("isrc");
            reveal_strlit("spotify");
            reveal_strlit("itunes");
            assert(Seq::<(Seq<char>, Seq<char>)>::empty() + views(rec.isrcs@).map_values(
                |v: Seq<char>| ("isrc"@, v),
            ) =~= views(rec.isrcs@).map_values(|v: Seq<char>| ("isrc"@, v)));
        }
        k = k + 1;
    }
    out
}

/// The identifier rows for one kind: each identifier with its position.
pub open spec fn rows_for(kind: Seq<char>, ids: Seq<Seq<char>>) -> Seq<(Seq<char>, Seq<char>, int)> {
    Seq::new(ids.len(), |k: int| (kind, ids[k], k))
}

/// The identifier rows a stored entry gets, as `(kind, value, ordering)`:
/// its ISRCs, Spotify ids and iTunes ids, each with its position in its
/// list.
pub open spec fn identifier_rows_of(rec: StoreRecord) -> Seq<(Seq<char>, Seq<char>, int)> {
    rows_for("isrc"@, views(rec.isrcs@)) + rows_for("spotify"@, views(rec.spotify_ids@)) + rows_for(
        "itunes"@,
        views(rec.itunes_ids@),
    )
}

/// Lists the identifier rows of a stored entry (see `identifier_rows_of`).
pub fn identifier_rows(rec: &StoreRecord) -> (r: Vec<(String, String, usize)>)
    ensures
        r@.map_values(|x: (String, String, usize)| (x.0@, x.1@, x.2 as int)) == identifier_rows_of(
            *rec,
        ),
{
    let ghost f = |x: (String, String, usize)| (x.0@, x.1@, x.2 as int);
    let mut out: Vec<(String, String, usize)> = Vec::new();
    let lists: [(&str, &Vec<String>); 3] = [
        ("isrc", &rec.isrcs),
        ("spotify", &rec.spotify_ids),
        ("itunes", &rec.itunes_ids),
    ];
    let mut k: usize = 0;
    while k < 3
        invariant
            k <= 3,
            f == (|x: (String, String, usize)| (x.0@, x.1@, x.2 as int)),
            lists@.len() == 3,
            lists@[0].0@ == "isrc"@ && lists@[0].1 == rec.isrcs,
            lists@[1].0@ == "spotify"@ && lists@[1].1 == rec.spotify_ids,
            lists@[2].0@ == "itunes"@ && lists@[2].1 == rec.itunes_ids,
            out@.map_values(f) == (if k == 0 {
                Seq::empty()
            } else if k == 1 {
                rows_for("isrc"@, views(rec.isrcs@))
            } else if k == 2 {
                rows_for("isrc"@, views(rec.isrcs@)) + rows_for("spotify"@, views(rec.spotify_ids@))
            } else {
                identifier_rows_of(*rec)
            }),
        decreases 3 - k,
    {
        let (kind, ids) = lists[k];
        let ghost before = out@.map_values(f);
        let mut i: usize = 0;
        while i < ids.len()
            invariant
                i <= ids@.len(),
                f == (|x: (String, String, usize)| (x.0@, x.1@, x.2 as int)),
                out@.map_values(f) == before + rows_for(kind@, views(ids@).take(i as int)),
            decreases ids@.len() - i,
        {
            let ghost prev = out@;
            let value = ids[i].clone();
            out.push((String::from_str(kind), value, i));
            proof {
                crate::layout::lemma_map_push(prev, out@.last(), f);
                assert(rows_for(kind@, views(ids@).take(i + 1)) =~= rows_for(
                    kind@,
                    views(ids@).take(i as int),
                ).push((kind@, ids@[i as int]@, i as int)));
            }
            i = i + 1;
        }
        proof {
            assert(views(ids@).take(i as int) =~= views(ids@));
            reveal_strlit("isrc");
            reveal_strlit("spotify");
            reveal_strlit("itunes");
            assert(Seq::<(Seq<char>, Seq<char>, int)>::empty() + rows_for(
                "isrc"@,
                views(rec.isrcs@),
            ) =~= rows_for("isrc"@, views(rec.isrcs@)));
        }
        k = k + 1;
    }
    out
}

/// Every identifier has one row: when each of a record's identifier lists
/// holds no value twice (as `prepare_store` leaves them, see
/// `lemma_dedup_keys_exact`), no two of its identifier rows share a kind
/// and a value; each value has the row of its kind with its position.
pub proof fn lemma_identifier_rows_unique(rec: StoreRecord)
    requires
        views(rec.isrcs@).no_duplicates(),
        views(rec.spotify_ids@).no_duplicates(),
        views(rec.itunes_ids@).no_duplicates(),
    ensures
        ({
            let rows = identifier_rows_of(rec);
            forall|a: int, b: int|
                0 <= a < b < rows.len() ==> (#[trigger] rows[a]).0 != (#[trigger] rows[b]).0
                    || rows[a].1 != rows[b].1
        }),
{
    let i = views(rec.isrcs@);
    let sp = views(rec.spotify_ids@);
    let it = views(rec.itunes_ids@);
    let rows = identifier_rows_of(rec);
    let ni = i.len() as int;
    let ns = sp.len() as int;
    reveal_strlit("isrc");
    reveal_strlit("spotify");
    reveal_strlit("itunes");
    assert forall|a: int| 0 <= a < rows.len() implies (#[trigger] rows[a]) == (if a < ni {
        ("isrc"@, i[a], a)
    } else if a < ni + ns {
        ("spotify"@, sp[a - ni], a - ni)
    } else {
        ("itunes"@, it[a - ni - ns], a - ni - ns)
    }) by {}
    assert("isrc"@ != "spotify"@ && "isrc"@ != "itunes"@ && "spotify"@ != "itunes"@) by {
        assert("isrc"@[1] != "spotify"@[1]);
        assert("isrc"@.len() != "itunes"@.len());
        assert("spotify"@.len() != "itunes"@.len());
    }
}

/// The first identifier question that found a row.
pub open spec fn first_hit(hits: Seq<Option<i64>>, i: int) -> Option<i64>
    decreases hits.len() - i,
{
    if i < 0 || i >= hits.len() {
        None
    } else if hits[i] is Some {
        hits[i]
    } else {
        first_hit(hits, i + 1)
    }
}

/// The row a stored entry joins: the row found by the first identifier
/// question that found one (`id_hits`, answers to `store_identifiers`, in
/// order); else the row of the same artist, title and album (`alias_hit`);
/// else, when artist and title are not empty, the first row for the same
/// artist and title whose duration fits (`rows`); else none, and a new row
/// is made.
pub open spec fn store_row_of(
    rec: StoreRecord,
    id_hits: Seq<Option<i64>>,
    alias_hit: Option<i64>,
    rows: Seq<(i64, Option<u64>)>,
) -> Option<i64> {
    match first_hit(id_hits, 0) {
        Some(id) => Some(id),
        None => match alias_hit {
            Some(id) => Some(id),
            None => if rec.artist@.len() > 0 && rec.title@.len() > 0 {
                first_fitting(rec.duration_ms, rows, 0)
            } else {
                None
            },
        },
    }
}

/// Chooses the row a stored entry joins (see `store_row_of`); `None` means
/// a new row.
pub fn choose_store_row(
    rec: &StoreRecord,
    id_hits: &Vec<Option<i64>>,
    alias_hit: Option<i64>,
    rows: &[(i64, Option<u64>)],
) -> (r: Option<i64>)
    ensures
        r == store_row_of(*rec, id_hits@, alias_hit, rows@),
{
    let mut i: usize = 0;
    while i < id_hits.len()
        invariant
            i <= id_hits@.len(),
            first_hit(id_hits@, 0) == first_hit(id_hits@, i as int),
        decreases id_hits@.len() - i,
    {
        if id_hits[i].is_some() {
            return id_hits[i];
        }
        i = i + 1;
    }
    if alias_hit.is_some() {
        return alias_hit;
    }
    if !rec.artist.as_str().is_empty() && !rec.title.as_str().is_empty() {
        pick_fitting_row(rec.duration_ms, rows)
    } else {
        None
    }
}

/// What a cached row holds once read back: its format and its text; none
/// when the payload does not decompress or the format is unknown, in which
/// case the row is to be deleted.
pub fn decode_cached_row(blob: Vec<u8>, format: &str) -> (r: Option<(LyricsFormat, String)>)
    ensures
        match r {
            Some((f, text)) => format@ == format_name(f) && decompressed_text(blob@) == Some(text@),
            None => decompressed_text(blob@) is None || !(exists|f: LyricsFormat|
                format@ == format_name(f)),
        },
{
    let text = match decompress_raw_lyrics(blob) {
        Some(t) => t,
        None => {
            return None;
        },
    };
    match LyricsFormat::from_str(format) {
        Some(f) => Some((f, text)),
        None => None,
    }
}

/// Normalized identifier lists hold each identifier once.
pub proof fn lemma_dedup_keys_unique(
    ids: Seq<Seq<char>>,
    key: spec_fn(Seq<char>) -> Option<Seq<char>>,
)
    ensures
        dedup_keys(ids, key).no_duplicates(),
    decreases ids.len(),
{
    if ids.len() > 0 {
        lemma_dedup_keys_unique(ids.drop_last(), key);
        let prev = dedup_keys(ids.drop_last(), key);
        if let Some(k) = key(ids.last()) {
            if !prev.contains(k) {
                assert forall|i: int, j: int|
                    0 <= i < prev.push(k).len() && 0 <= j < prev.push(k).len() && i != j implies prev.push(
                    k,
                )[i] != prev.push(k)[j] by {
                    if i < prev.len() && j < prev.len() {
                    } else if i == prev.len() {
                        assert(prev[j] == prev.push(k)[j]);
                    } else {
                        assert(prev[i] == prev.push(k)[i]);
                    }
                }
            }
        }
    }
}

/// Some identifier of `ids` before position `end` has the key `k`.
pub open spec fn has_key_before(
    ids: Seq<Seq<char>>,
    key: spec_fn(Seq<char>) -> Option<Seq<char>>,
    k: Seq<char>,
    end: int,
) -> bool {
    exists|i: int| 0 <= i < end && i < ids.len() && key(ids[i]) == Some(k)
}

/// What identifiers are stored under: each key of an identifier once (no
/// key twice), nothing that is not the key of some identifier (so never a
/// blank one), and in the order of their first identifiers.
pub proof fn lemma_dedup_keys_exact(ids: Seq<Seq<char>>, key: spec_fn(Seq<char>) -> Option<Seq<char>>)
    ensures
        ({
            let r = dedup_keys(ids, key);
            &&& forall|a: int, b: int| 0 <= a < b < r.len() ==> r[a] != r[b]
            &&& forall|a: int| 0 <= a < r.len() ==> has_key_before(ids, key, #[trigger] r[a], ids.len() as int)
            &&& forall|i: int| 0 <= i < ids.len() && key(ids[i]) is Some ==> r.contains(
                #[trigger] key(ids[i])->0,
            )
            &&& forall|a: int, b: int, j: int|
                #![trigger r[a], r[b], key(ids[j])]
                0 <= a < b < r.len() && 0 <= j < ids.len() && key(ids[j]) == Some(r[b])
                    ==> has_key_before(ids, key, r[a], j)
        }),
    decreases ids.len(),
{
    let r = dedup_keys(ids, key);
    assert forall|i: int| 0 <= i < ids.len() && key(ids[i]) is Some implies r.contains(
        #[trigger] key(ids[i])->0,
    ) by {
        lemma_dedup_keys_contains(ids, key, i);
    }
    if ids.len() > 0 {
        let d = ids.drop_last();
        lemma_dedup_keys_exact(d, key);
        let prev = dedup_keys(d, key);
        let n = ids.len() - 1;
        assert forall|x: Seq<char>, e: int| has_key_before(d, key, x, e) implies has_key_before(
            ids,
            key,
            x,
            e,
        ) by {
            let i = choose|i: int| 0 <= i < e && i < d.len() && key(d[i]) == Some(x);
            assert(ids[i] == d[i]);
        }
        assert forall|a: int| 0 <= a < prev.len() implies has_key_before(
            ids,
            key,
            #[trigger] prev[a],
            n,
        ) by {
            assert(has_key_before(d, key, prev[a], d.len() as int));
        }
        match key(ids.last()) {
            Some(k) => {
                if !prev.contains(k) {
                    assert(r == prev.push(k));
                    assert forall|j: int| 0 <= j < n && key(ids[j]) == Some(k) implies false by {
                        assert(d[j] == ids[j]);
                        lemma_dedup_keys_contains(d, key, j);
                    }
                    assert(has_key_before(ids, key, k, ids.len() as int)) by {
                        assert(key(ids[n]) == Some(k));
                    }
                    assert forall|a: int, b: int| 0 <= a < b < r.len() implies r[a] != r[b] by {
                        if b == prev.len() {
                            assert(prev.contains(r[a]));
                        }
                    }
                    assert forall|a: int, b: int, j: int|
                        #![trigger r[a], r[b], key(ids[j])]
                        0 <= a < b < r.len() && 0 <= j < ids.len() && key(ids[j]) == Some(r[b])
                            implies has_key_before(ids, key, r[a], j) by {
                        if b == prev.len() {
                            assert(r[a] == prev[a]);
                            assert(has_key_before(ids, key, prev[a], n));
                        } else if j == n {
                            assert(prev.contains(r[b]));
                        } else {
                            assert(d[j] == ids[j]);
                            assert(has_key_before(d, key, prev[a], j));
                        }
                    }
                    assert forall|a: int| 0 <= a < r.len() implies has_key_before(
                        ids,
                        key,
                        #[trigger] r[a],
                        ids.len() as int,
                    ) by {
                        if a < prev.len() {
                            assert(has_key_before(ids, key, prev[a], n));
                        }
                    }
                } else {
                    assert(r == prev);
                    assert forall|a: int, b: int, j: int|
                        #![trigger r[a], r[b], key(ids[j])]
                        0 <= a < b < r.len() && 0 <= j < ids.len() && key(ids[j]) == Some(r[b])
                            implies has_key_before(ids, key, r[a], j) by {
                        if j == n {
                            assert(has_key_before(ids, key, prev[a], n));
                        } else {
                            assert(d[j] == ids[j]);
                            assert(has_key_before(d, key, prev[a], j));
                        }
                    }
                    assert forall|a: int| 0 <= a < r.len() implies has_key_before(
                        ids,
                        key,
                        #[trigger] r[a],
                        ids.len() as int,
                    ) by {
                        assert(has_key_before(ids, key, prev[a], n));
                    }
                }
            },
            None => {
                assert(r == prev);
                assert forall|a: int, b: int, j: int|
                    #![trigger r[a], r[b], key(ids[j])]
                    0 <= a < b < r.len() && 0 <= j < ids.len() && key(ids[j]) == Some(r[b])
                        implies has_key_before(ids, key, r[a], j) by {
                    assert(j != n);
                    assert(d[j] == ids[j]);
                    assert(has_key_before(d, key, prev[a], j));
                }
                assert forall|a: int| 0 <= a < r.len() implies has_key_before(
                    ids,
                    key,
                    #[trigger] r[a],
                    ids.len() as int,
                ) by {
                    assert(has_key_before(ids, key, prev[a], n));
                }
            },
        }
    }
}

/// Every identifier whose key is defined has its key in the normalized list.
pub proof fn lemma_dedup_keys_contains(
    ids: Seq<Seq<char>>,
    key: spec_fn(Seq<char>) -> Option<Seq<char>>,
    i: int,
)
    requires
        0 <= i < ids.len(),
        key(ids[i]) is Some,
    ensures
        dedup_keys(ids, key).contains(key(ids[i])->0),
    decreases ids.len(),
{
    let prev = dedup_keys(ids.drop_last(), key);
    if i < ids.len() - 1 {
        lemma_dedup_keys_contains(ids.drop_last(), key, i);
        let k = key(ids[i])->0;
        let j = choose|j: int| 0 <= j < prev.len() && prev[j] == k;
        if let Some(kl) = key(ids.last()) {
            if !prev.contains(kl) {
                assert(prev.push(kl)[j] == k);
            }
        }
    } else {
        let k = key(ids[i])->0;
        if prev.contains(k) {
        } else {
            assert(prev.push(k)[prev.len() as int] == k);
        }
    }
}

/// Read after write for the cache keys: an entry is filed
/// (`prepare_store`) under the normalized artist, title and album that a
/// lookup of the same track asks for first after its ISRC (`lookup_plan`).
pub proof fn lemma_alias_lookup_finds_stored_keys(
    artist: Seq<char>,
    title: Seq<char>,
    album: Seq<char>,
    isrc: Option<Seq<char>>,
    spotify_id: Option<Seq<char>>,
    itunes_id: Option<Seq<char>>,
)
    ensures
        lookup_plan_of(artist, title, album, isrc, spotify_id, itunes_id).contains(
            (1int, lowercase(trim(artist)), lowercase(trim(title)), lowercase(trim(album))),
        ),
{
    let plan = lookup_plan_of(artist, title, album, isrc, spotify_id, itunes_id);
    let first: Seq<(int, Seq<char>, Seq<char>, Seq<char>)> = match isrc {
        Some(s) => match isrc_key(s) {
            Some(k) => seq![(0int, k, Seq::<char>::empty(), Seq::<char>::empty())],
            None => Seq::empty(),
        },
        None => Seq::empty(),
    };
    assert(plan[first.len() as int] == (
        1int,
        lowercase(trim(artist)),
        lowercase(trim(title)),
        lowercase(trim(album)),
    ));
}

/// Read after write for identifiers: an ISRC stored with an entry is filed
/// under its normalized form, which is what a lookup by that ISRC asks for
/// first.
pub proof fn lemma_isrc_lookup_finds_stored(
    isrcs: Seq<Seq<char>>,
    i: int,
    artist: Seq<char>,
    title: Seq<char>,
    album: Seq<char>,
    spotify_id: Option<Seq<char>>,
    itunes_id: Option<Seq<char>>,
)
    requires
        0 <= i < isrcs.len(),
        isrc_key(isrcs[i]) is Some,
    ensures
        dedup_keys(isrcs, |s: Seq<char>| isrc_key(s)).contains(isrc_key(isrcs[i])->0),
        lookup_plan_of(artist, title, album, Some(isrcs[i]), spotify_id, itunes_id)[0] == (
            0int,
            isrc_key(isrcs[i])->0,
            Seq::<char>::empty(),
            Seq::<char>::empty(),
        ),
{
    lemma_dedup_keys_contains(isrcs, |s: Seq<char>| isrc_key(s), i);
}

/// The player's own identifier stays with the lyrics fetched for it: the
/// merged list holds it, up to ASCII case.
pub proof fn lemma_extra_id_kept(ids: Seq<Seq<char>>, e: Seq<char>)
    ensures
        exists|i: int|
            0 <= i < with_extra_id(ids, Some(e)).len() && eq_ignore_ascii_case(
                #[trigger] with_extra_id(ids, Some(e))[i],
                e,
            ),
{
    let merged = with_extra_id(ids, Some(e));
    if !(exists|i: int| 0 <= i < ids.len() && eq_ignore_ascii_case(#[trigger] ids[i], e)) {
        assert(merged[ids.len() as int] == e);
        assert(eq_ignore_ascii_case(merged[ids.len() as int], e));
    }
}

/// Whether a duration fits does not depend on which side is the track.
pub proof fn lemma_durations_match_symmetric(a: Option<u64>, b: Option<u64>)
    ensures
        durations_match(a, b) == durations_match(b, a),
{
}

/// The identifiers of a cached entry from its `(kind, value)` rows, in
/// order: `isrc`, `spotify` and `itunes` rows go to their lists, other kinds
/// are ignored.
pub open spec fn ids_of_kind(rows: Seq<(String, String)>, kind: Seq<char>) -> Seq<Seq<char>> {
    rows.filter(|r: (String, String)| r.0@ == kind).map_values(|r: (String, String)| r.1@)
}

/// Sorts a cached entry's identifier rows into their lists.
pub fn track_ids_from_rows(rows: &Vec<(String, String)>) -> (r: TrackMatchInfo)
    ensures
        views(r.track_isrcs@) == ids_of_kind(rows@, "isrc"@),
        views(r.track_spotify_ids@) == ids_of_kind(rows@, "spotify"@),
        views(r.track_itunes_ids@) == ids_of_kind(rows@, "itunes"@),
{
    let mut isrcs: Vec<String> = Vec::new();
    let mut spotify: Vec<String> = Vec::new();
    let mut itunes: Vec<String> = Vec::new();
    let mut i: usize = 0;
    while i < rows.len()
        invariant
            i <= rows@.len(),
            views(isrcs@) == ids_of_kind(rows@.take(i as int), "isrc"@),
            views(spotify@) == ids_of_kind(rows@.take(i as int), "spotify"@),
            views(itunes@) == ids_of_kind(rows@.take(i as int), "itunes"@),
        decreases rows@.len() - i,
    {
        let (kind, value) = (&rows[i].0, &rows[i].1);
        proof {
            reveal(Seq::filter);
            reveal_strlit("isrc");
            reveal_strlit("spotify");
            reveal_strlit("itunes");
            assert("isrc"@.len() == 4 && "spotify"@.len() == 7 && "itunes"@.len() == 6);
            assert(rows@.take(i + 1).drop_last() =~= rows@.take(i as int));
            assert(rows@.take(i + 1).last() == rows@[i as int]);
        }
        let ghost pi = isrcs@;
        let ghost ps = spotify@;
        let ghost pt = itunes@;
        if same_text(kind.as_str(), "isrc") {
            isrcs.push(value.clone());
            proof {
                crate::layout::lemma_map_push(pi, isrcs@.last(), |x: String| x@);
            }
        } else if same_text(kind.as_str(), "spotify") {
            spotify.push(value.clone());
            proof {
                crate::layout::lemma_map_push(ps, spotify@.last(), |x: String| x@);
            }
        } else if same_text(kind.as_str(), "itunes") {
            itunes.push(value.clone());
            proof {
                crate::layout::lemma_map_push(pt, itunes@.last(), |x: String| x@);
            }
        }
        proof {
            reveal_strlit("isrc");
            reveal_strlit("spotify");
            reveal_strlit("itunes");
            let t = rows@.take(i + 1);
            lemma_ids_of_kind_step(t, "isrc"@);
            lemma_ids_of_kind_step(t, "spotify"@);
            lemma_ids_of_kind_step(t, "itunes"@);
        }
        i = i + 1;
    }
    assert(rows@.take(i as int) =~= rows@);
    TrackMatchInfo { track_isrcs: isrcs, track_spotify_ids: spotify, track_itunes_ids: itunes }
}

proof fn lemma_ids_of_kind_step(t: Seq<(String, String)>, kind: Seq<char>)
    requires
        t.len() > 0,
    ensures
        ids_of_kind(t, kind) == if t.last().0@ == kind {
            ids_of_kind(t.drop_last(), kind).push(t.last().1@)
        } else {
            ids_of_kind(t.drop_last(), kind)
        },
{
    reveal(Seq::filter);
    let f = |r: (String, String)| r.0@ == kind;
    let g = |r: (String, String)| r.1@;
    assert(t.filter(f) == if f(t.last()) {
        t.drop_last().filter(f).push(t.last())
    } else {
        t.drop_last().filter(f)
    });
    if f(t.last()) {
        crate::layout::lemma_map_push(t.drop_last().filter(f), t.last(), g);
    }
}

/// Cached lyrics read back: LRC text is parsed; richsync and subtitle text
/// come with their parse (`richsync`, `subtitles`, none when it failed), and
/// a failed parse is an error (the entry is then deleted). Found lyrics
/// keep the raw text and the entry's identifiers.
pub fn stored_lyrics_result(
    format: LyricsFormat,
    raw: String,
    richsync: Option<Vec<LyricLine>>,
    subtitles: Option<Vec<LyricLine>>,
    track_ids: TrackMatchInfo,
) -> (r: ProviderResult)
    ensures
        match format {
            LyricsFormat::Lrclib => r matches Ok((lines, Some(t), ids)) && timed_texts(lines@)
                == lrc_entries(raw@) && all_unworded(lines@) && t@ == raw@ && ids == track_ids,
            LyricsFormat::Richsync => match richsync {
                Some(ls) => r matches Ok((lines, Some(t), ids)) && lines == ls && t@ == raw@ && ids
                    == track_ids,
                None => r matches Err(LyricsError::Api(m)) && m@
                    == "Failed to parse richsync lyrics from database"@,
            },
            LyricsFormat::Subtitles => match subtitles {
                Some(ls) => r matches Ok((lines, Some(t), ids)) && lines == ls && t@ == raw@ && ids
                    == track_ids,
                None => r matches Err(LyricsError::Api(m)) && m@
                    == "Failed to parse subtitle lyrics from database"@,
            },
        },
{
    match format {
        LyricsFormat::Lrclib => {
            let lines = parse_synced_lyrics(raw.as_str());
            Ok((lines, Some(raw), track_ids))
        },
        LyricsFormat::Richsync => match richsync {
            Some(ls) => Ok((ls, Some(raw), track_ids)),
            None => Err(
                LyricsError::Api(String::from_str("Failed to parse richsync lyrics from database")),
            ),
        },
        LyricsFormat::Subtitles => match subtitles {
            Some(ls) => Ok((ls, Some(raw), track_ids)),
            None => Err(
                LyricsError::Api(String::from_str("Failed to parse subtitle lyrics from database")),
            ),
        },
    }
}

} // verus!

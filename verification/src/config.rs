//! The program's configuration and the choices made from it: which lyric
//! providers are asked, in which order, and which player is followed.

use vstd::prelude::*;
use crate::metadata::{blocked, is_blocked};
use crate::text::{lowercase, split_trimmed, to_lowercase, trimmed_fields, views};
use crate::types::TrackMetadata;

verus! {

/// The configuration given on the command line.
#[derive(Debug, Clone)]
pub struct Config {
    /// Print the current lyric line to standard output instead of the
    /// full-screen view.
    pub pipe: bool,
    /// Player bus names to ignore (case-insensitive substrings).
    pub block: Vec<String>,
    /// Player bus names to follow only.
    pub target: Vec<String>,
    /// Turn off word-by-word highlighting.
    pub no_karaoke: bool,
    /// The most lyric lines to show at once.
    pub visible_lines: Option<usize>,
    /// Lyric providers in order of preference.
    pub providers: Vec<String>,
    /// Path of the local lyrics cache.
    pub database: Option<String>,
    /// The player bus name to query first.
    pub player_service: Option<String>,
    /// Look up ISRCs of local files for Musixmatch searches.
    pub isrc: bool,
}

/// The providers asked when none are configured: LRCLIB, then Musixmatch.
pub open spec fn default_providers() -> Seq<Seq<char>> {
    seq!["lrclib"@, "musixmatch"@]
}

fn default_provider_list() -> (r: Vec<String>)
    ensures
        views(r@) == default_providers(),
{
    let mut v: Vec<String> = Vec::new();
    v.push(String::from_str("lrclib"));
    v.push(String::from_str("musixmatch"));
    proof {
        reveal_strlit("lrclib");
        reveal_strlit("musixmatch");
    }
    assert(views(v@) =~= default_providers());
    v
}

impl Default for Config {
    fn default() -> (r: Self)
        ensures
            !r.pipe,
            r.block@.len() == 0,
            r.target@.len() == 0,
            !r.no_karaoke,
            r.visible_lines is None,
            views(r.providers@) == default_providers(),
            r.database is None,
            r.player_service is None,
            !r.isrc,
    {
        Config {
            pipe: false,
            block: Vec::new(),
            target: Vec::new(),
            no_karaoke: false,
            visible_lines: None,
            providers: default_provider_list(),
            database: None,
            player_service: None,
            isrc: false,
        }
    }
}

/// The providers named in a comma-separated list: each trimmed and
/// lowercased, empty ones dropped.
pub open spec fn provider_list(value: Seq<char>) -> Seq<Seq<char>> {
    trimmed_fields(value, ',').map_values(|f: Seq<char>| lowercase(f)).filter(
        |p: Seq<char>| p.len() > 0,
    )
}

/// Takes the providers from the `LYRIC_PROVIDERS` value `env_value` when
/// none were configured and it names at least one.
pub fn providers_from_env_if_empty(cfg: &mut Config, env_value: Option<&str>)
    ensures
        ({
            let use_env = old(cfg).providers@.len() == 0 && (env_value matches Some(s)
                && provider_list(s@).len() > 0);
            if use_env {
                views(final(cfg).providers@) == provider_list(env_value->0@)
            } else {
                final(cfg).providers == old(cfg).providers
            }
        }),
        final(cfg).pipe == old(cfg).pipe,
        final(cfg).block == old(cfg).block,
        final(cfg).target == old(cfg).target,
        final(cfg).no_karaoke == old(cfg).no_karaoke,
        final(cfg).visible_lines == old(cfg).visible_lines,
        final(cfg).database == old(cfg).database,
        final(cfg).player_service == old(cfg).player_service,
        final(cfg).isrc == old(cfg).isrc,
{
    if cfg.providers.len() > 0 {
        return;
    }
    let s = match env_value {
        Some(s) => s,
        None => {
            return;
        },
    };
    let fields = split_trimmed(s, ',');
    let ghost lowered = views(fields@).map_values(|f: Seq<char>| lowercase(f));
    let mut parts: Vec<String> = Vec::new();
    let mut i: usize = 0;
    while i < fields.len()
        invariant
            i <= fields@.len(),
            views(fields@) == trimmed_fields(s@, ','),
            lowered == views(fields@).map_values(|f: Seq<char>| lowercase(f)),
            views(parts@) == lowered.take(i as int).filter(|p: Seq<char>| p.len() > 0),
        decreases fields@.len() - i,
    {
        let p = to_lowercase(fields[i].as_str());
        proof {
            assert(lowered.take(i + 1).drop_last() =~= lowered.take(i as int));
            assert(lowered[i as int] == p@);
            reveal(Seq::filter);
        }
        if !p.as_str().is_empty() {
            let ghost before = parts@;
            parts.push(p);
            proof {
                crate::layout::lemma_map_push(before, parts@.last(), |x: String| x@);
            }
        }
        i = i + 1;
    }
    assert(lowered.take(i as int) =~= lowered);
    if parts.len() > 0 {
        cfg.providers = parts;
    }
}

/// The providers the event loop asks: the configured ones, or the defaults
/// when none are configured.
pub fn effective_providers(providers: Vec<String>) -> (r: Vec<String>)
    ensures
        providers@.len() == 0 ==> views(r@) == default_providers(),
        providers@.len() > 0 ==> r == providers,
{
    if providers.len() == 0 {
        default_provider_list()
    } else {
        providers
    }
}

/// Whether a player is followed: the block list does not name it and, when
/// a target list is given, the target list does (both case-insensitive
/// substring matches).
pub open spec fn followed(service: Seq<char>, block_list: Seq<Seq<char>>, target: Seq<Seq<char>>) -> bool {
    !blocked(service, block_list) && (target.len() == 0 || blocked(service, target))
}

/// Whether a player service is followed under `block_list` and `target`.
pub fn is_followed(service: &str, block_list: &Vec<String>, target: &Vec<String>) -> (r: bool)
    ensures
        r == followed(service@, views(block_list@), views(target@)),
{
    let bl = block_list.as_slice();
    let tl = target.as_slice();
    assert(bl@.map_values(|b: String| b@) == views(block_list@));
    assert(tl@.map_values(|b: String| b@) == views(target@));
    !is_blocked(service, bl) && (target.len() == 0 || is_blocked(service, tl))
}

/// The first player in `names` that is followed (see `followed`).
pub fn first_followed(names: &Vec<String>, block_list: &Vec<String>, target: &Vec<String>) -> (r:
    Option<String>)
    ensures
        match r {
            Some(s) => exists|i: int|
                0 <= i < names@.len() && names@[i]@ == s@ && followed(
                    s@,
                    views(block_list@),
                    views(target@),
                ) && forall|j: int|
                    0 <= j < i ==> !followed(
                        #[trigger] names@[j]@,
                        views(block_list@),
                        views(target@),
                    ),
            None => forall|j: int|
                0 <= j < names@.len() ==> !followed(
                    #[trigger] names@[j]@,
                    views(block_list@),
                    views(target@),
                ),
        },
{
    let mut i: usize = 0;
    while i < names.len()
        invariant
            i <= names@.len(),
            forall|j: int|
                0 <= j < i ==> !followed(#[trigger] names@[j]@, views(block_list@), views(target@)),
        decreases names@.len() - i,
    {
        if is_followed(names[i].as_str(), block_list, target) {
            return Some(names[i].clone());
        }
        i = i + 1;
    }
    None
}

/// What a player reports about itself.
#[derive(Debug, Clone)]
pub struct MprisPlayer {
    pub service: String,
    pub playback_status: String,
    pub title: Option<String>,
    pub artist: Option<String>,
    pub album: Option<String>,
    /// Position in microseconds.
    pub position: Option<i64>,
}

/// A text, or empty when there is none.
pub open spec fn or_empty(s: Option<String>) -> Seq<char> {
    match s {
        Some(t) => t@,
        None => Seq::empty(),
    }
}

fn text_or_empty(s: &Option<String>) -> (r: String)
    ensures
        r@ == or_empty(*s),
{
    match s {
        Some(t) => t.clone(),
        None => String::new(),
    }
}

impl MprisPlayer {
    /// The track metadata of the player: title, artist and album, empty
    /// when not reported, and nothing else.
    pub fn to_metadata(&self) -> (r: TrackMetadata)
        ensures
            r.title@ == or_empty(self.title),
            r.artist@ == or_empty(self.artist),
            r.album@ == or_empty(self.album),
            r.length_ms is None,
            r.spotify_id is None,
            r.isrc is None,
            r.itunes_id is None,
    {
        TrackMetadata {
            title: text_or_empty(&self.title),
            artist: text_or_empty(&self.artist),
            album: text_or_empty(&self.album),
            length_ms: None,
            spotify_id: None,
            isrc: None,
            itunes_id: None,
        }
    }
}

} // verus!

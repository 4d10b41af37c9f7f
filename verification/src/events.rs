//! How the shared state reacts to what the player reports and to what the
//! lyrics providers answer. The event loop performs the outside work (D-Bus
//! queries, HTTP requests, the cache) and hands the results to these
//! functions, which decide what changes and what the loop does next.

use vstd::prelude::*;
use crate::cache::{merge_track_id, with_extra_id};
use crate::lines::{is_active_index, stable_sort_of};
use crate::metadata::opt_view;
use crate::providers::{
    db_format_of, determine_musixmatch_provider, detect_provider_from_raw, musixmatch_provider_of,
    provider_of_raw, provider_to_db_format, LyricsFormat, LyricsSource, ProviderResult,
};
use crate::state::{clamp_to_length, next_version, PlayerState, Provider, StateBundle};
use crate::text::{same_text, views};
use crate::timer::{estimate_value, sanitized};
use crate::types::{error_message, LyricLine, LyricsError, TrackMatchInfo, TrackMetadata};

verus! {

/// A change reported by the player: its metadata, the position in
/// milliseconds and the player's bus name (empty when no player is active).
#[derive(Debug, Clone)]
pub enum MprisEvent {
    /// Full update: the track or the playback state may have changed.
    PlayerUpdate(TrackMetadata, i64, String),
    /// The user moved to another position.
    Seeked(TrackMetadata, i64, String),
}

/// What the event loop receives.
#[derive(Debug, Clone)]
pub enum Event {
    Mpris(MprisEvent),
    Shutdown,
}

/// What the event loop does after the state has taken in an event.
#[derive(Debug, Clone, Copy, PartialEq, Eq)]
pub enum EventAction {
    /// Nothing the display needs to see.
    Nothing,
    /// Send a snapshot of the state to the display.
    Send,
    /// A new track started: send a snapshot, fetch its lyrics, hand the
    /// result and a fresh position to the fetch functions, send again.
    FetchLyrics,
}

/// The metadata, position, bus name and kind (full update or seek) of an
/// event.
pub open spec fn event_parts(e: MprisEvent) -> (TrackMetadata, i64, Seq<char>, bool) {
    match e {
        MprisEvent::PlayerUpdate(m, p, s) => (m, p, s@, true),
        MprisEvent::Seeked(m, p, s) => (m, p, s@, false),
    }
}

/// Whether a reported playback status is the given one.
pub open spec fn status_is(status: Option<Seq<char>>, name: Seq<char>) -> bool {
    status == Some(name)
}

/// The player's fields that describe the track, unchanged between `a` and
/// `b`.
pub open spec fn same_track_fields(a: PlayerState, b: PlayerState) -> bool {
    &&& a.title == b.title
    &&& a.artist == b.artist
    &&& a.album == b.album
    &&& a.length_ms == b.length_ms
    &&& a.err == b.err
}

/// The state once no player is active: no lyrics, no provider, a fresh
/// player, and the version advanced from `old_version`.
pub open spec fn no_player_state(s: StateBundle, old_version: u64) -> bool {
    &&& s.lyric_state.line_seq().len() == 0
    &&& s.lyric_state.current() is None
    &&& s.provider is None
    &&& s.version == next_version(old_version)
    &&& s.player_state.title@.len() == 0
    &&& s.player_state.artist@.len() == 0
    &&& s.player_state.album@.len() == 0
    &&& !s.player_state.playing
    &&& s.player_state.position_ms == 0
    &&& s.player_state.err is None
    &&& s.player_state.length_ms is None
    &&& s.player_state.timer_anchor() == 0
    &&& !s.player_state.timer_running()
}

/// The state once a new track `meta` started: its lyrics dropped, its
/// metadata taken over at position 0, playing as the status says (or as
/// before when there is none), and the version advanced once.
pub open spec fn new_track_state(
    s: StateBundle,
    old: StateBundle,
    meta: TrackMetadata,
    status: Option<Seq<char>>,
) -> bool {
    &&& s.lyric_state.line_seq().len() == 0
    &&& s.lyric_state.current() is None
    &&& s.provider is None
    &&& s.version == next_version(old.version)
    &&& s.player_state.title@ == meta.title@
    &&& s.player_state.artist@ == meta.artist@
    &&& s.player_state.album@ == meta.album@
    &&& s.player_state.length_ms == meta.length_ms
    &&& s.player_state.err is None
    &&& s.player_state.position_ms == 0
    &&& s.player_state.timer_anchor() == 0
    &&& s.player_state.playing == (if status is Some {
        status_is(status, "Playing"@)
    } else {
        old.player_state.playing
    })
    &&& s.player_state.playing ==> s.player_state.timer_running()
}

/// The active line and version after moving the active line to `position`:
/// the line is the one at `position`, and the version advanced when, and
/// only when, it changed.
pub open spec fn index_moved(s: StateBundle, old: StateBundle, position: u64) -> bool {
    &&& s.lyric_state.line_seq() == old.lyric_state.line_seq()
    &&& is_active_index(s.lyric_state.line_seq(), position, s.lyric_state.current())
    &&& s.version == (if s.lyric_state.current() != old.lyric_state.current() {
        next_version(old.version)
    } else {
        old.version
    })
    &&& s.provider == old.provider
}

/// The state after a seek to `position`: the player restarts its timer at
/// the sanitized position, keeps playing or pausing, and the active line
/// follows.
pub open spec fn seek_state(s: StateBundle, old: StateBundle, position: i64) -> bool {
    &&& index_moved(s, old, sanitized(position))
    &&& s.player_state.position_ms == sanitized(position)
    &&& s.player_state.timer_anchor() == sanitized(position)
    &&& s.player_state.timer_running()
    &&& s.player_state.playing == old.player_state.playing
    &&& same_track_fields(s.player_state, old.player_state)
}

/// The state after a full update with the same track: the reported
/// position and status are taken over, and the active line follows the
/// estimated position.
pub open spec fn playback_state(
    s: StateBundle,
    old: StateBundle,
    position: i64,
    status: Option<Seq<char>>,
) -> bool {
    &&& s.player_state.position_ms == sanitized(position)
    &&& s.player_state.timer_anchor() == sanitized(position)
    &&& s.player_state.playing == (if status is Some {
        status_is(status, "Playing"@)
    } else {
        old.player_state.playing
    })
    &&& s.player_state.playing ==> s.player_state.timer_running()
    &&& same_track_fields(s.player_state, old.player_state)
    &&& exists|elapsed: u64|
        index_moved(
            s,
            old,
            clamp_to_length(
                estimate_value(
                    s.player_state.timer_anchor(),
                    s.player_state.playing,
                    s.player_state.timer_running(),
                    elapsed,
                ),
                s.player_state.length_ms,
            ),
        )
}

/// Whether a seek may be the echo a player sends when a track starts: same
/// title and artist, lyrics loaded, and less than half a second since they
/// were.
pub open spec fn echo_window(s: StateBundle, meta: TrackMetadata, since_load_ms: Option<u64>) -> bool {
    &&& s.player_state.title@ == meta.title@
    &&& s.player_state.artist@ == meta.artist@
    &&& s.lyric_state.line_seq().len() > 0
    &&& since_load_ms matches Some(e) && e < 500
}

/// Whether `a` and `b` are less than two seconds apart.
pub open spec fn within_two_seconds(a: int, b: int) -> bool {
    -2000 < a - b < 2000
}

/// A position the player of `s` may be estimated at, `elapsed`
/// milliseconds after its timer started.
pub open spec fn estimate_at(s: StateBundle, elapsed: u64) -> u64 {
    clamp_to_length(
        estimate_value(
            s.player_state.timer_anchor(),
            s.player_state.playing,
            s.player_state.timer_running(),
            elapsed,
        ),
        s.player_state.length_ms,
    )
}

/// Whether the display must see a full update that reported `position` when
/// the position was estimated at `estimate`: playback started or stopped,
/// the active line changed, or the position jumped by two seconds or more.
pub open spec fn must_show(s: StateBundle, old: StateBundle, position: i64, estimate: u64) -> bool {
    ||| s.player_state.playing != old.player_state.playing
    ||| s.lyric_state.current() != old.lyric_state.current()
    ||| !within_two_seconds(sanitized(position) as int, estimate as int)
}

/// Drops the lyrics and resets the player: no player is active.
pub fn handle_no_player(state: &mut StateBundle)
    ensures
        no_player_state(*final(state), old(state).version),
{
    state.clear_lyrics();
    state.player_state = PlayerState::default();
}

/// Prepares the state for a new track: its lyrics are dropped, the
/// metadata taken over at position 0, and the reported status applied.
pub fn begin_new_track(state: &mut StateBundle, meta: &TrackMetadata, status: &Option<String>)
    ensures
        new_track_state(*final(state), *old(state), *meta, opt_view(*status)),
{
    state.clear_lyrics();
    state.player_state.update_from_metadata(meta);
    state.player_state.set_position(0);
    if let Some(s) = status {
        if same_text(s.as_str(), "Playing") {
            state.player_state.start_playing();
        } else {
            state.player_state.pause();
        }
    }
}

/// Moves the player to `position_ms` after a seek; the active line follows.
pub fn apply_seek(state: &mut StateBundle, position_ms: i64)
    ensures
        seek_state(*final(state), *old(state), position_ms),
{
    state.player_state.set_position(position_ms);
    let pos = crate::timer::sanitize_position(position_ms);
    state.update_index(pos);
}

/// Takes over a full update for the current track. Answers whether the
/// display must see it: when playback started or stopped, the active line
/// changed, or the reported position is two seconds or more away from the
/// one estimated before (a seek).
pub fn apply_state_update(state: &mut StateBundle, position_ms: i64, status: &Option<String>) -> (r:
    bool)
    ensures
        playback_state(*final(state), *old(state), position_ms, opt_view(*status)),
        exists|elapsed: u64| r == must_show(*final(state), *old(state), position_ms, estimate_at(*old(state), elapsed)),
        !(old(state).player_state.playing && old(state).player_state.timer_running()) ==> r
            == must_show(
            *final(state),
            *old(state),
            position_ms,
            clamp_to_length(old(state).player_state.timer_anchor(), old(state).player_state.length_ms),
        ),
{
    let ghost before = *state;
    let estimated = state.player_state.estimate_position();
    let prev_playing = state.player_state.playing;
    match status {
        Some(s) => {
            let playing = same_text(s.as_str(), "Playing");
            state.player_state.update_playback_dbus(playing, position_ms);
        },
        None => {
            state.player_state.set_position(position_ms);
        },
    }
    let current = state.player_state.estimate_position();
    let ghost mid = *state;
    let changed = state.update_index(current);
    proof {
        let elapsed = choose|elapsed: u64|
            current == clamp_to_length(
                estimate_value(
                    mid.player_state.timer_anchor(),
                    mid.player_state.playing,
                    mid.player_state.timer_running(),
                    elapsed,
                ),
                mid.player_state.length_ms,
            );
        assert(index_moved(
            *state,
            before,
            clamp_to_length(
                estimate_value(
                    state.player_state.timer_anchor(),
                    state.player_state.playing,
                    state.player_state.timer_running(),
                    elapsed,
                ),
                state.player_state.length_ms,
            ),
        ));
    }
    let reported = crate::timer::sanitize_position(position_ms);
    let jumped = if reported >= estimated {
        reported - estimated >= 2000
    } else {
        estimated - reported >= 2000
    };
    let r = prev_playing != state.player_state.playing || changed || jumped;
    proof {
        let e = choose|elapsed: u64|
            estimated == clamp_to_length(
                estimate_value(
                    before.player_state.timer_anchor(),
                    before.player_state.playing,
                    before.player_state.timer_running(),
                    elapsed,
                ),
                before.player_state.length_ms,
            );
        assert(r == must_show(*state, before, position_ms, estimate_at(before, e)));
    }
    r
}

/// Whether a seek to `position_ms` is the echo a player sends when a track
/// starts, given the estimated position `estimated_ms`: it falls in the echo
/// window (the same track, lyrics loaded less than half a second ago) and
/// lands less than two seconds from the estimate.
pub fn seek_echo_at(
    state: &StateBundle,
    meta: &TrackMetadata,
    position_ms: i64,
    since_load_ms: Option<u64>,
    estimated_ms: u64,
) -> (r: bool)
    ensures
        r == (echo_window(*state, *meta, since_load_ms) && within_two_seconds(
            position_ms as int,
            estimated_ms as int,
        )),
{
    if !(same_text(state.player_state.title.as_str(), meta.title.as_str()) && same_text(
        state.player_state.artist.as_str(),
        meta.artist.as_str(),
    ) && state.has_lyrics()) {
        return false;
    }
    match since_load_ms {
        Some(e) => {
            if e >= 500 {
                return false;
            }
        },
        None => {
            return false;
        },
    }
    let c = estimated_ms as i128;
    let p = position_ms as i128;
    -2000 < p - c && p - c < 2000
}

/// Takes in an event from the player and decides what the loop does next.
/// `status` is the playback status the loop read for a full update (none
/// for a seek, or when it could not be read), and `since_load_ms` the time
/// since lyrics were last loaded, when known.
///
/// - No player (empty bus name), or a full update reporting `Stopped`: the
///   state is cleared and the display told.
/// - A full update for another track: the state is prepared for it and its
///   lyrics must be fetched.
/// - A full update for the same track: position and status are taken over;
///   the display is told when playback started or stopped or the active line
///   changed.
/// - A seek: ignored when it is a start-of-track echo (in the echo window
///   and less than two seconds from the estimated position), else the
///   position is taken over and the display told.
pub fn handle_mpris_event(
    state: &mut StateBundle,
    event: &MprisEvent,
    status: &Option<String>,
    since_load_ms: Option<u64>,
) -> (r: EventAction)
    ensures
        ({
            let (meta, position, service, full) = event_parts(*event);
            let st = opt_view(*status);
            if service.len() == 0 || (full && status_is(st, "Stopped"@)) {
                r == EventAction::Send && no_player_state(*final(state), old(state).version)
            } else if full {
                if old(state).player_state.title@ != meta.title@ || old(state).player_state.artist@
                    != meta.artist@ || old(state).player_state.album@ != meta.album@ {
                    r == EventAction::FetchLyrics && new_track_state(
                        *final(state),
                        *old(state),
                        meta,
                        st,
                    )
                } else {
                    &&& playback_state(*final(state), *old(state), position, st)
                    &&& exists|elapsed: u64|
                        r == (if must_show(
                            *final(state),
                            *old(state),
                            position,
                            estimate_at(*old(state), elapsed),
                        ) {
                            EventAction::Send
                        } else {
                            EventAction::Nothing
                        })
                }
            } else {
                exists|elapsed: u64|
                    if echo_window(*old(state), meta, since_load_ms) && within_two_seconds(
                        position as int,
                        estimate_at(*old(state), elapsed) as int,
                    ) {
                        r == EventAction::Nothing && *final(state) == *old(state)
                    } else {
                        r == EventAction::Send && seek_state(*final(state), *old(state), position)
                    }
            }
        }),
        ({
            let (meta, position, service, full) = event_parts(*event);
            service.len() > 0 && !full && !echo_window(*old(state), meta, since_load_ms) ==> r
                == EventAction::Send
        }),
{
    let (meta, position, service, full) = match event {
        MprisEvent::PlayerUpdate(m, p, s) => (m, *p, s, true),
        MprisEvent::Seeked(m, p, s) => (m, *p, s, false),
    };
    if service.as_str().is_empty() {
        handle_no_player(state);
        return EventAction::Send;
    }
    if full {
        let stopped = match status {
            Some(s) => same_text(s.as_str(), "Stopped"),
            None => false,
        };
        if stopped {
            handle_no_player(state);
            return EventAction::Send;
        }
        if state.player_state.has_changed(meta) {
            begin_new_track(state, meta, status);
            return EventAction::FetchLyrics;
        }
        if apply_state_update(state, position, status) {
            EventAction::Send
        } else {
            EventAction::Nothing
        }
    } else {
        let ghost before = *state;
        let current = state.player_state.estimate_position();
        let echo = seek_echo_at(state, meta, position, since_load_ms, current);
        let ghost e = choose|elapsed: u64|
            current == clamp_to_length(
                estimate_value(
                    state.player_state.timer_anchor(),
                    state.player_state.playing,
                    state.player_state.timer_running(),
                    elapsed,
                ),
                state.player_state.length_ms,
            );
        assert(current == estimate_at(before, e));
        if echo {
            return EventAction::Nothing;
        }
        apply_seek(state, position);
        assert(!(echo_window(before, *meta, since_load_ms) && within_two_seconds(
            position as int,
            estimate_at(before, e) as int,
        )));
        EventAction::Send
    }
}

/// The position to use once lyrics are loaded: the one the player reported,
/// or, when it could not be read, the state's estimate.
pub fn fresh_position(state: &StateBundle, reported_ms: Option<i64>) -> (r: i64)
    ensures
        reported_ms matches Some(p) ==> r == p,
        reported_ms is None ==> r >= 0 && exists|elapsed: u64|
            sanitized(r) == clamp_to_length(
                estimate_value(
                    state.player_state.timer_anchor(),
                    state.player_state.playing,
                    state.player_state.timer_running(),
                    elapsed,
                ),
                state.player_state.length_ms,
            ) || (r == i64::MAX && clamp_to_length(
                estimate_value(
                    state.player_state.timer_anchor(),
                    state.player_state.playing,
                    state.player_state.timer_running(),
                    elapsed,
                ),
                state.player_state.length_ms,
            ) > i64::MAX),
{
    match reported_ms {
        Some(p) => p,
        None => {
            let est = state.player_state.estimate_position();
            if est > 9_223_372_036_854_775_807 {
                i64::MAX
            } else {
                est as i64
            }
        },
    }
}

/// Finishes a lyrics fetch: the active line moves to `position_ms`, and the
/// player restarts its timer there.
pub fn finish_fetch(state: &mut StateBundle, position_ms: i64)
    ensures
        seek_state(*final(state), *old(state), position_ms),
{
    let pos = crate::timer::sanitize_position(position_ms);
    state.update_index(pos);
    state.player_state.set_position(position_ms);
}

/// Lyrics to put in the cache after a provider found them: their format,
/// raw text and the track identifiers to file them under.
#[derive(Debug, Clone)]
pub struct StoreRequest {
    pub format: LyricsFormat,
    pub raw: String,
    pub isrcs: Vec<String>,
    pub spotify_ids: Vec<String>,
    pub itunes_ids: Vec<String>,
}

/// What a provider's answer means for the fetch.
#[derive(Debug, Clone)]
pub enum FetchStep {
    /// Lyrics were loaded; store them in the cache when there is a request.
    Done(Option<StoreRequest>),
    /// No lyrics here; ask the next provider.
    Next,
    /// The provider failed; the error was recorded and the fetch ends.
    Failed,
}

/// Loads lyrics from the cache when it had some: lines and no error, with
/// the provider guessed from the raw text. Answers whether it did.
pub fn accept_cached(state: &mut StateBundle, meta: &TrackMetadata, cached: Option<ProviderResult>) -> (r:
    bool)
    ensures
        r == (cached matches Some(Ok((lines, _, _))) && lines@.len() > 0),
        r ==> (cached matches Some(Ok((lines, raw, _))) && {
            &&& stable_sort_of(final(state).lyric_state.line_seq(), lines@)
            &&& final(state).provider == (match raw {
                Some(t) => Some(provider_of_raw(t@)),
                None => None,
            })
        }),
        r ==> loaded_state(*final(state), *old(state), *meta, None),
        !r ==> *final(state) == *old(state),
{
    match cached {
        Some(Ok((lines, raw, _ids))) => {
            if lines.len() > 0 {
                let provider = detect_provider_from_raw(&raw);
                state.update_lyrics(lines, meta, None, provider);
                true
            } else {
                false
            }
        },
        _ => false,
    }
}

/// The state once lyrics (possibly none) were loaded for `meta` with the
/// error `err`: the track's metadata at position 0, no active line, and the
/// version advanced once.
pub open spec fn loaded_state(s: StateBundle, old: StateBundle, meta: TrackMetadata, err: Option<
    Seq<char>,
>) -> bool {
    &&& s.lyric_state.current() is None
    &&& s.player_state.title@ == meta.title@
    &&& s.player_state.artist@ == meta.artist@
    &&& s.player_state.album@ == meta.album@
    &&& s.player_state.length_ms == meta.length_ms
    &&& s.player_state.position_ms == 0
    &&& s.player_state.playing == old.player_state.playing
    &&& opt_view(s.player_state.err) == err
    &&& s.version == next_version(old.version)
}

/// The provider that lyrics found by `source` count as.
pub open spec fn found_provider(source: LyricsSource, lines: Seq<LyricLine>, raw: Option<Seq<char>>) -> Provider {
    match source {
        LyricsSource::Lrclib => Provider::Lrclib,
        LyricsSource::Musixmatch => musixmatch_provider_of(lines, raw),
    }
}

/// Takes in the answer of the provider `source`:
/// - lines found: they are loaded, and the raw text (when there is one) is
///   to be cached under the provider's ISRCs and its Spotify and iTunes ids
///   with the player's own added;
/// - no lines, or a network error: the next provider is asked;
/// - any other error: an empty result with the error's message is loaded.
pub fn accept_provider_answer(
    state: &mut StateBundle,
    meta: &TrackMetadata,
    source: LyricsSource,
    result: ProviderResult,
) -> (r: FetchStep)
    ensures
        match result {
            Ok((lines, raw, ids)) => if lines@.len() > 0 {
                let p = found_provider(source, lines@, opt_view(raw));
                &&& stable_sort_of(final(state).lyric_state.line_seq(), lines@)
                &&& final(state).provider == Some(p)
                &&& loaded_state(*final(state), *old(state), *meta, None)
                &&& match r {
                    FetchStep::Done(req) => match raw {
                        Some(t) => req matches Some(q) && q.format == db_format_of(p) && q.raw@
                            == t@ && views(q.isrcs@) == views(ids.track_isrcs@) && views(
                            q.spotify_ids@,
                        ) == with_extra_id(
                            views(ids.track_spotify_ids@),
                            opt_view(meta.spotify_id),
                        ) && views(q.itunes_ids@) == with_extra_id(
                            views(ids.track_itunes_ids@),
                            opt_view(meta.itunes_id),
                        ),
                        None => req is None,
                    },
                    _ => false,
                }
            } else {
                r is Next && *final(state) == *old(state)
            },
            Err(LyricsError::Network(_)) => r is Next && *final(state) == *old(state),
            Err(e) => {
                &&& r is Failed
                &&& final(state).lyric_state.line_seq().len() == 0
                &&& final(state).provider is None
                &&& loaded_state(*final(state), *old(state), *meta, Some(error_message(e)))
            },
        },
{
    match result {
        Ok((lines, raw, ids)) => {
            if lines.len() == 0 {
                return FetchStep::Next;
            }
            let provider = match source {
                LyricsSource::Lrclib => Provider::Lrclib,
                LyricsSource::Musixmatch => determine_musixmatch_provider(lines.as_slice(), &raw),
            };
            state.update_lyrics(lines, meta, None, Some(provider));
            let req = match raw {
                Some(text) => Some(
                    StoreRequest {
                        format: provider_to_db_format(provider),
                        raw: text,
                        isrcs: ids.track_isrcs,
                        spotify_ids: merge_track_id(ids.track_spotify_ids.as_slice(), &meta.spotify_id),
                        itunes_ids: merge_track_id(ids.track_itunes_ids.as_slice(), &meta.itunes_id),
                    },
                ),
                None => None,
            };
            FetchStep::Done(req)
        },
        Err(LyricsError::Network(_)) => FetchStep::Next,
        Err(e) => {
            let msg = e.message();
            state.update_lyrics(Vec::new(), meta, Some(msg), None);
            proof {
                crate::lines::lemma_stable_sort_of_empty(state.lyric_state.line_seq());
            }
            FetchStep::Failed
        },
    }
}

/// Ends a fetch in which no provider had lyrics: an empty result without
/// error is loaded.
pub fn no_lyrics_found(state: &mut StateBundle, meta: &TrackMetadata)
    ensures
        final(state).lyric_state.line_seq().len() == 0,
        final(state).provider is None,
        loaded_state(*final(state), *old(state), *meta, None),
{
    state.update_lyrics(Vec::new(), meta, None, None);
    proof {
        crate::lines::lemma_stable_sort_of_empty(state.lyric_state.line_seq());
    }
}

} // verus!

//! Mutable playback and lyrics state, and the snapshots of it that the
//! display receives.

use vstd::prelude::*;
use std::sync::Arc;
use crate::lines::{find_active_index, is_active_index, sort_by_time, sorted_by_time, stable_sort_of};
use crate::timer::{estimate_value, sanitized, PlaybackTimer};
use crate::types::{LyricLine, TrackMetadata};

verus! {

/// Shares a list of lines (`Arc::clone`).
#[verifier::external_body]
fn share_lines(lines: &Arc<Vec<LyricLine>>) -> (r: Arc<Vec<LyricLine>>)
    ensures
        r@ == lines@,
{
    Arc::clone(lines)
}

/// Where the current lyrics come from.
#[derive(Debug, Clone, Copy, PartialEq, Eq, Hash, Structural)]
pub enum Provider {
    /// The LRCLIB community database.
    Lrclib,
    /// Musixmatch with word-level timings.
    MusixmatchRichsync,
    /// Musixmatch with line-level timings.
    MusixmatchSubtitles,
}

pub open spec fn provider_name(p: Provider) -> Seq<char> {
    match p {
        Provider::Lrclib => "LRCLib"@,
        Provider::MusixmatchRichsync => "Musixmatch (Richsync)"@,
        Provider::MusixmatchSubtitles => "Musixmatch (Subtitles)"@,
    }
}

pub open spec fn provider_id(p: Provider) -> Seq<char> {
    match p {
        Provider::Lrclib => "lrclib"@,
        Provider::MusixmatchRichsync => "musixmatch_richsync"@,
        Provider::MusixmatchSubtitles => "musixmatch_subtitles"@,
    }
}

impl Provider {
    /// The human-readable name of the provider.
    pub fn name(self) -> (r: &'static str)
        ensures
            r@ == provider_name(self),
    {
        match self {
            Provider::Lrclib => "LRCLib",
            Provider::MusixmatchRichsync => "Musixmatch (Richsync)",
            Provider::MusixmatchSubtitles => "Musixmatch (Subtitles)",
        }
    }

    /// A short identifier of the provider, for logs.
    pub fn id(self) -> (r: &'static str)
        ensures
            r@ == provider_id(self),
    {
        match self {
            Provider::Lrclib => "lrclib",
            Provider::MusixmatchRichsync => "musixmatch_richsync",
            Provider::MusixmatchSubtitles => "musixmatch_subtitles",
        }
    }
}

/// A snapshot of the state, as the display receives it.
#[derive(Debug, Clone)]
pub struct Update {
    /// The lyrics, sorted by time.
    pub lines: Arc<Vec<LyricLine>>,
    /// The active line, if any.
    pub index: Option<usize>,
    /// Playback position in milliseconds.
    pub position_ms: u64,
    pub playing: bool,
    /// Version of the state this snapshot was taken from.
    pub version: u64,
    pub err: Option<String>,
    pub artist: String,
    pub title: String,
    pub album: String,
    pub provider: Option<Provider>,
}

impl Default for Update {
    fn default() -> (r: Self)
        ensures
            r.lines@.len() == 0,
            r.index is None,
            r.position_ms == 0,
            !r.playing,
            r.version == 0,
            r.err is None,
            r.artist@.len() == 0,
            r.title@.len() == 0,
            r.album@.len() == 0,
            r.provider is None,
    {
        Update {
            lines: Arc::new(Vec::new()),
            index: None,
            position_ms: 0,
            playing: false,
            version: 0,
            err: None,
            artist: String::new(),
            title: String::new(),
            album: String::new(),
            provider: None,
        }
    }
}

impl Update {
    /// A copy of the snapshot sharing its lines.
    pub fn duplicate(&self) -> (r: Update)
        ensures
            r.lines@ == self.lines@,
            r.index == self.index,
            r.position_ms == self.position_ms,
            r.playing == self.playing,
            r.version == self.version,
            r.err == self.err,
            r.artist == self.artist,
            r.title == self.title,
            r.album == self.album,
            r.provider == self.provider,
    {
        let err = match &self.err {
            Some(e) => Some(e.clone()),
            None => None,
        };
        Update {
            lines: share_lines(&self.lines),
            index: self.index,
            position_ms: self.position_ms,
            playing: self.playing,
            version: self.version,
            err,
            artist: self.artist.clone(),
            title: self.title.clone(),
            album: self.album.clone(),
            provider: self.provider,
        }
    }

    /// Whether the snapshot holds lyrics.
    pub fn has_lyrics(&self) -> (r: bool)
        ensures
            r == (self.lines@.len() > 0),
    {
        self.lines.len() > 0
    }

    /// Whether the snapshot holds an error.
    pub fn has_error(&self) -> (r: bool)
        ensures
            r == self.err is Some,
    {
        self.err.is_some()
    }

    /// Whether a line is active.
    pub fn has_active_line(&self) -> (r: bool)
        ensures
            r == self.index is Some,
    {
        self.index.is_some()
    }
}

/// The playback position clamped to the track length, when one is known.
pub open spec fn clamp_to_length(position: u64, length: Option<u64>) -> u64 {
    match length {
        Some(len) => if position > len {
            len
        } else {
            position
        },
        None => position,
    }
}

/// Playback state of the current track.
#[derive(Debug)]
pub struct PlayerState {
    pub title: String,
    pub artist: String,
    pub album: String,
    pub playing: bool,
    /// Last reported position, in milliseconds.
    pub position_ms: u64,
    pub err: Option<String>,
    /// Track length in milliseconds, when known.
    pub length_ms: Option<u64>,
    /// Estimates the position between reports.
    pub timer: PlaybackTimer,
}

impl Default for PlayerState {
    fn default() -> (r: Self)
        ensures
            r.title@.len() == 0,
            r.artist@.len() == 0,
            r.album@.len() == 0,
            !r.playing,
            r.position_ms == 0,
            r.err is None,
            r.length_ms is None,
            r.timer_anchor() == 0,
            r.anchored_at_position(),
            !r.timer_running(),
    {
        PlayerState {
            title: String::new(),
            artist: String::new(),
            album: String::new(),
            playing: false,
            position_ms: 0,
            err: None,
            length_ms: None,
            timer: PlaybackTimer::new(),
        }
    }
}

impl PlayerState {
    /// The timer is anchored at the last reported position: what every
    /// method that sets the position leaves, and what starting or pausing
    /// keeps.
    pub open spec fn anchored_at_position(&self) -> bool {
        self.timer.anchor() == self.position_ms
    }

    /// The anchor of the position timer.
    pub open spec fn timer_anchor(&self) -> u64 {
        self.timer.anchor()
    }

    /// Whether the position timer counts elapsed time.
    pub open spec fn timer_running(&self) -> bool {
        self.timer.running()
    }

    /// Takes over the metadata of a new track and restarts at position 0,
    /// clearing any error.
    pub fn update_from_metadata(&mut self, meta: &TrackMetadata)
        ensures
            final(self).title@ == meta.title@,
            final(self).artist@ == meta.artist@,
            final(self).album@ == meta.album@,
            final(self).length_ms == meta.length_ms,
            final(self).position_ms == 0,
            final(self).err is None,
            final(self).playing == old(self).playing,
            final(self).timer_anchor() == 0,
            final(self).anchored_at_position(),
            !final(self).timer_running(),
    {
        self.title = meta.title.clone();
        self.artist = meta.artist.clone();
        self.album = meta.album.clone();
        self.length_ms = meta.length_ms;
        self.timer.reset(0);
        self.position_ms = 0;
        self.err = None;
    }

    /// Takes over a position and a playing state reported by the player.
    pub fn update_playback_dbus(&mut self, playing: bool, position_ms: i64)
        ensures
            final(self).playing == playing,
            final(self).position_ms == sanitized(position_ms),
            final(self).timer_anchor() == sanitized(position_ms),
            final(self).anchored_at_position(),
            playing ==> final(self).timer_running(),
            !playing && old(self).playing ==> !final(self).timer_running(),
            final(self).title == old(self).title,
            final(self).artist == old(self).artist,
            final(self).album == old(self).album,
            final(self).length_ms == old(self).length_ms,
            final(self).err == old(self).err,
    {
        self.set_position(position_ms);
        if playing {
            self.start_playing();
        } else {
            self.pause();
        }
    }

    /// Estimates the current position: the timer's estimate, clamped to the
    /// track length when one is known. It never exceeds a known length;
    /// while paused it is the last reported position (clamped), the timer
    /// being anchored there as every method that sets the position leaves
    /// it.
    pub fn estimate_position(&self) -> (r: u64)
        ensures
            self.length_ms matches Some(len) ==> r <= len,
            !self.playing && self.anchored_at_position() ==> r == clamp_to_length(
                self.position_ms,
                self.length_ms,
            ),
            exists|elapsed: u64| r == clamp_to_length(
                estimate_value(self.timer_anchor(), self.playing, self.timer_running(), elapsed),
                self.length_ms,
            ),
            !(self.playing && self.timer_running()) ==> r == clamp_to_length(
                self.timer_anchor(),
                self.length_ms,
            ),
    {
        let estimated = self.timer.estimate(self.playing);
        let r = match self.length_ms {
            Some(len) => if estimated > len {
                len
            } else {
                estimated
            },
            None => estimated,
        };
        proof {
            let elapsed = choose|elapsed: u64| estimated == estimate_value(
                self.timer_anchor(),
                self.playing,
                self.timer_running(),
                elapsed,
            );
            assert(r == clamp_to_length(
                estimate_value(self.timer_anchor(), self.playing, self.timer_running(), elapsed),
                self.length_ms,
            ));
        }
        r
    }

    /// Whether `meta` names another track than the current one (title,
    /// artist or album differ).
    pub fn has_changed(&self, meta: &TrackMetadata) -> (r: bool)
        ensures
            r == (self.title@ != meta.title@ || self.artist@ != meta.artist@ || self.album@
                != meta.album@),
    {
        !(self.title == meta.title) || !(self.artist == meta.artist) || !(self.album
            == meta.album)
    }

    /// Sets a new position (sanitized) and restarts the timer from it,
    /// keeping the playing state.
    pub fn set_position(&mut self, position_ms: i64)
        ensures
            final(self).position_ms == sanitized(position_ms),
            final(self).timer_anchor() == sanitized(position_ms),
            final(self).anchored_at_position(),
            final(self).timer_running(),
            final(self).playing == old(self).playing,
            final(self).title == old(self).title,
            final(self).artist == old(self).artist,
            final(self).album == old(self).album,
            final(self).length_ms == old(self).length_ms,
            final(self).err == old(self).err,
    {
        let pos = crate::timer::sanitize_position(position_ms);
        self.timer.set_position(position_ms);
        self.position_ms = pos;
    }

    /// Marks playback as running; the timer restarts only when it was paused.
    pub fn start_playing(&mut self)
        ensures
            final(self).playing,
            final(self).position_ms == old(self).position_ms,
            final(self).timer_anchor() == old(self).timer_anchor(),
            old(self).anchored_at_position() ==> final(self).anchored_at_position(),
            old(self).playing ==> final(self).timer_running() == old(self).timer_running(),
            !old(self).playing ==> final(self).timer_running(),
            final(self).title == old(self).title,
            final(self).artist == old(self).artist,
            final(self).album == old(self).album,
            final(self).length_ms == old(self).length_ms,
            final(self).err == old(self).err,
    {
        if !self.playing {
            self.playing = true;
            self.timer.mark_playing();
        }
    }

    /// Marks playback as paused; the timer stops only when it was playing.
    pub fn pause(&mut self)
        ensures
            !final(self).playing,
            final(self).position_ms == old(self).position_ms,
            final(self).timer_anchor() == old(self).timer_anchor(),
            old(self).anchored_at_position() ==> final(self).anchored_at_position(),
            !old(self).playing ==> final(self).timer_running() == old(self).timer_running(),
            old(self).playing ==> !final(self).timer_running(),
            final(self).title == old(self).title,
            final(self).artist == old(self).artist,
            final(self).album == old(self).album,
            final(self).length_ms == old(self).length_ms,
            final(self).err == old(self).err,
    {
        if self.playing {
            self.playing = false;
            self.timer.mark_paused();
        }
    }
}

/// The lyrics of the current track, kept sorted by time, and the active
/// line.
#[derive(Debug)]
pub struct LyricState {
    lines: Arc<Vec<LyricLine>>,
    index: Option<usize>,
}

impl LyricState {
    #[verifier::type_invariant]
    spec fn sorted(self) -> bool {
        sorted_by_time(self.lines@)
    }

    /// The lines, in time order.
    pub closed spec fn line_seq(self) -> Seq<LyricLine> {
        self.lines@
    }

    /// The active line.
    pub closed spec fn current(self) -> Option<usize> {
        self.index
    }

    /// The lines.
    pub fn lines(&self) -> (r: &Arc<Vec<LyricLine>>)
        ensures
            r@ == self.line_seq(),
            sorted_by_time(r@),
    {
        proof {
            use_type_invariant(self);
        }
        &self.lines
    }

    /// The active line.
    pub fn index(&self) -> (r: Option<usize>)
        ensures
            r == self.current(),
    {
        self.index
    }

    /// The active line at `position`: the last line that starts at or
    /// before it, or none when no line does.
    pub fn get_index(&self, position_ms: u64) -> (r: Option<usize>)
        ensures
            is_active_index(self.line_seq(), position_ms, r),
    {
        proof {
            use_type_invariant(self);
        }
        find_active_index(&*self.lines, position_ms)
    }

    /// Replaces the lyrics, sorting them by time (lines with equal times keep
    /// their order), and clears the active line. The new lines are the
    /// given ones, each as often as given.
    pub fn update_lines(&mut self, lines: Vec<LyricLine>)
        ensures
            stable_sort_of(final(self).line_seq(), lines@),
            final(self).line_seq().to_multiset() == lines@.to_multiset(),
            final(self).current() is None,
    {
        let ghost given = lines@;
        let sorted = sort_by_time(lines);
        proof {
            crate::lines::lemma_stable_sort_is_permutation(sorted@, given);
        }
        self.lines = Arc::new(sorted);
        self.index = None;
    }

    /// Sets the active line; answers whether it changed.
    pub fn update_index(&mut self, new_index: Option<usize>) -> (r: bool)
        ensures
            r == (old(self).current() != new_index),
            final(self).current() == new_index,
            final(self).line_seq() == old(self).line_seq(),
    {
        proof {
            use_type_invariant(&*self);
        }
        let changed = self.index != new_index;
        if changed {
            self.index = new_index;
        }
        changed
    }

    /// The number of lines.
    pub fn line_count(&self) -> (r: usize)
        ensures
            r == self.line_seq().len(),
    {
        self.lines.len()
    }

    /// Whether there are no lines.
    pub fn is_empty(&self) -> (r: bool)
        ensures
            r == (self.line_seq().len() == 0),
    {
        self.lines.len() == 0
    }
}

impl Default for LyricState {
    fn default() -> (r: Self)
        ensures
            r.line_seq().len() == 0,
            r.current() is None,
    {
        LyricState { lines: Arc::new(Vec::new()), index: None }
    }
}


/// The version that follows `v`, wrapping around at the top.
pub open spec fn next_version(v: u64) -> u64 {
    if v == u64::MAX {
        0
    } else {
        (v + 1) as u64
    }
}

/// The whole mutable state, with a version that advances on every change the
/// display must see.
#[derive(Debug)]
pub struct StateBundle {
    pub lyric_state: LyricState,
    pub player_state: PlayerState,
    pub version: u64,
    pub provider: Option<Provider>,
}

impl Default for StateBundle {
    fn default() -> (r: Self)
        ensures
            r.lyric_state.line_seq().len() == 0,
            r.lyric_state.current() is None,
            r.version == 0,
            r.provider is None,
            !r.player_state.playing,
            r.player_state.position_ms == 0,
    {
        Self::new()
    }
}

impl StateBundle {
    /// An empty state at version 0.
    pub fn new() -> (r: Self)
        ensures
            r.lyric_state.line_seq().len() == 0,
            r.lyric_state.current() is None,
            r.version == 0,
            r.provider is None,
            !r.player_state.playing,
            r.player_state.position_ms == 0,
            r.player_state.err is None,
            r.player_state.title@.len() == 0,
            r.player_state.artist@.len() == 0,
            r.player_state.album@.len() == 0,
            r.player_state.length_ms is None,
            r.player_state.timer_anchor() == 0,
            !r.player_state.timer_running(),
    {
        StateBundle {
            lyric_state: LyricState::default(),
            player_state: PlayerState::default(),
            version: 0,
            provider: None,
        }
    }

    /// Advances the version by one, wrapping around at the top.
    fn increment_version(&mut self)
        ensures
            final(self).version == next_version(old(self).version),
            final(self).lyric_state == old(self).lyric_state,
            final(self).player_state == old(self).player_state,
            final(self).provider == old(self).provider,
    {
        self.version = self.version.wrapping_add(1);
    }

    /// Drops the lyrics and their provider; the version advances.
    pub fn clear_lyrics(&mut self)
        ensures
            final(self).lyric_state.line_seq().len() == 0,
            final(self).lyric_state.current() is None,
            final(self).provider is None,
            final(self).version == next_version(old(self).version),
            final(self).player_state == old(self).player_state,
    {
        self.lyric_state.update_lines(Vec::new());
        proof {
            crate::lines::lemma_stable_sort_of_empty(self.lyric_state.line_seq());
        }
        self.provider = None;
        self.increment_version();
    }

    /// Loads new lyrics for the track `meta`, with an error message and the
    /// provider they came from; the player restarts at position 0 and the
    /// version advances once.
    pub fn update_lyrics(
        &mut self,
        lines: Vec<LyricLine>,
        meta: &TrackMetadata,
        err: Option<String>,
        provider: Option<Provider>,
    )
        ensures
            stable_sort_of(final(self).lyric_state.line_seq(), lines@),
            final(self).lyric_state.current() is None,
            final(self).player_state.title@ == meta.title@,
            final(self).player_state.artist@ == meta.artist@,
            final(self).player_state.album@ == meta.album@,
            final(self).player_state.length_ms == meta.length_ms,
            final(self).player_state.position_ms == 0,
            final(self).player_state.playing == old(self).player_state.playing,
            final(self).player_state.err == err,
            final(self).provider == provider,
            final(self).version == next_version(old(self).version),
    {
        self.lyric_state.update_lines(lines);
        self.player_state.update_from_metadata(meta);
        self.player_state.err = err;
        self.provider = provider;
        self.increment_version();
    }

    /// Moves the active line to the one at `position_ms`; the version
    /// advances when, and only when, the active line changes. Answers whether
    /// it changed.
    pub fn update_index(&mut self, position_ms: u64) -> (r: bool)
        ensures
            is_active_index(final(self).lyric_state.line_seq(), position_ms,
                final(self).lyric_state.current()),
            final(self).lyric_state.line_seq() == old(self).lyric_state.line_seq(),
            r == (final(self).lyric_state.current() != old(self).lyric_state.current()),
            final(self).version == (if r {
                next_version(old(self).version)
            } else {
                old(self).version
            }),
            final(self).player_state == old(self).player_state,
            final(self).provider == old(self).provider,
    {
        let new_index = self.lyric_state.get_index(position_ms);
        let changed = self.lyric_state.update_index(new_index);
        if changed {
            self.increment_version();
        }
        changed
    }

    /// A snapshot of the state. The position is the timer's estimate while
    /// playing and the last reported position while paused.
    pub fn create_update(&self) -> (r: Update)
        ensures
            r.lines@ == self.lyric_state.line_seq(),
            r.index == self.lyric_state.current(),
            !self.player_state.playing ==> r.position_ms == self.player_state.position_ms,
            self.player_state.playing ==> exists|elapsed: u64| r.position_ms == clamp_to_length(
                estimate_value(
                    self.player_state.timer_anchor(),
                    true,
                    self.player_state.timer_running(),
                    elapsed,
                ),
                self.player_state.length_ms,
            ),
            r.playing == self.player_state.playing,
            r.version == self.version,
            r.err == self.player_state.err,
            r.artist@ == self.player_state.artist@,
            r.title@ == self.player_state.title@,
            r.album@ == self.player_state.album@,
            r.provider == self.provider,
    {
        let position = if self.player_state.playing {
            self.player_state.estimate_position()
        } else {
            self.player_state.position_ms
        };
        let err = match &self.player_state.err {
            Some(e) => Some(e.clone()),
            None => None,
        };
        Update {
            lines: share_lines(self.lyric_state.lines()),
            index: self.lyric_state.index(),
            position_ms: position,
            playing: self.player_state.playing,
            version: self.version,
            err,
            artist: self.player_state.artist.clone(),
            title: self.player_state.title.clone(),
            album: self.player_state.album.clone(),
            provider: self.provider,
        }
    }

    /// Whether lyrics are loaded.
    pub fn has_lyrics(&self) -> (r: bool)
        ensures
            r == (self.lyric_state.line_seq().len() > 0),
    {
        !self.lyric_state.is_empty()
    }
}

} // verus!

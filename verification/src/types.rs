//! The data that flows between the parsers, the providers and the display.
//! Times are integer milliseconds.

use vstd::prelude::*;
use crate::text::concat_str;

verus! {

/// Timing of one word of a line, for word-by-word highlighting.
#[derive(Debug, Clone, PartialEq)]
pub struct WordTiming {
    /// Start of the word, in milliseconds.
    pub start_ms: u64,
    /// End of the word, in milliseconds.
    pub end_ms: u64,
    pub text: String,
    /// Byte offsets of the grapheme cluster boundaries of `text`; the first
    /// is 0 and the last is the byte length of `text`.
    pub grapheme_boundaries: Vec<usize>,
    /// Times at which each grapheme after the first starts to be
    /// highlighted; one fewer than the graphemes.
    pub grapheme_times_ms: Vec<u64>,
}

impl WordTiming {
    /// The number of grapheme clusters in the word.
    pub fn grapheme_count(&self) -> (r: usize)
        ensures
            r == (if self.grapheme_boundaries@.len() == 0 {
                0
            } else {
                self.grapheme_boundaries@.len() - 1
            }),
    {
        if self.grapheme_boundaries.len() == 0 {
            0
        } else {
            self.grapheme_boundaries.len() - 1
        }
    }
}

/// One timed line of lyrics.
#[derive(Debug, Clone, PartialEq)]
pub struct LyricLine {
    /// Start of the line, in milliseconds.
    pub time_ms: u64,
    pub text: String,
    /// Per-word timings, for lyrics that carry them.
    pub words: Option<Vec<WordTiming>>,
}

/// Track identifiers reported by a provider or kept with cached lyrics.
#[derive(Debug, Clone, PartialEq, Eq, Default)]
pub struct TrackMatchInfo {
    pub track_isrcs: Vec<String>,
    pub track_spotify_ids: Vec<String>,
    pub track_itunes_ids: Vec<String>,
}

/// Why lyrics could not be fetched.
#[derive(Debug, Clone, PartialEq, Eq)]
pub enum LyricsError {
    /// The request did not reach the provider or its answer was lost.
    Network(String),
    /// The provider answered with something other than lyrics.
    Api(String),
    /// The provider's answer could not be decoded.
    Serde(String),
}

/// The message of an error, as it is shown to the user.
pub open spec fn error_message(e: LyricsError) -> Seq<char> {
    match e {
        LyricsError::Network(m) => "Network error: "@ + m@,
        LyricsError::Api(m) => "API error: "@ + m@,
        LyricsError::Serde(m) => "Serde error: "@ + m@,
    }
}

impl LyricsError {
    /// The message shown for this error: its kind, a colon and the detail.
    pub fn message(&self) -> (r: String)
        ensures
            r@ == error_message(*self),
    {
        match self {
            LyricsError::Network(m) => concat_str("Network error: ", m.as_str()),
            LyricsError::Api(m) => concat_str("API error: ", m.as_str()),
            LyricsError::Serde(m) => concat_str("Serde error: ", m.as_str()),
        }
    }
}

} // verus!

verus! {

/// Metadata of the track a player reports.
#[derive(Debug, Clone, PartialEq, Default)]
pub struct TrackMetadata {
    pub title: String,
    pub artist: String,
    pub album: String,
    /// Track length in milliseconds, when the player reports one.
    pub length_ms: Option<u64>,
    pub spotify_id: Option<String>,
    pub isrc: Option<String>,
    pub itunes_id: Option<String>,
}

} // verus!

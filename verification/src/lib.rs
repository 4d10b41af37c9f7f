//! Verified core of a synchronized-lyrics viewer for MPRIS media players:
//! LRC and richsync lyric parsing, line tracking, playback timing, fuzzy
//! song matching, provider selection and display layout.

pub mod text;
pub mod lrc;
pub mod types;
pub mod timer;
pub mod lines;
pub mod state;
pub mod providers;
pub mod metadata;
pub mod cache;
pub mod cache_read;
pub mod richsync;
pub mod lyricsdb;
pub mod events;
pub mod similarity;
pub mod artist;
pub mod json;
pub mod requests;
pub mod token_search;
pub mod layout;
pub mod display;
pub mod frontends;
pub mod config;
pub mod watcher;

use lyricsmpris::events::apply_state_update;
use lyricsmpris::layout::{line_style_by_distance, LineStyle};
use lyricsmpris::metadata::MprisMetadata;
use lyricsmpris::state::{LyricState, StateBundle};
use lyricsmpris::timer::{sanitize_position, PlaybackTimer};
use lyricsmpris::types::{LyricLine, TrackMetadata};

fn line(time_ms: u64, text: &str) -> LyricLine {
    LyricLine { time_ms, text: text.to_string(), words: None }
}

#[test]
fn test_lyric_index_empty() {
    let state = LyricState::default();
    assert_eq!(state.get_index(5000), None);
}

#[test]
fn test_lyric_index_before_first() {
    let mut state = LyricState::default();
    state.update_lines(vec![line(10_000, "First")]);
    assert_eq!(state.get_index(5000), None);
}

#[test]
fn test_lyric_index_basic() {
    let mut state = LyricState::default();
    state.update_lines(vec![line(10_000, "First"), line(20_000, "Second")]);
    assert_eq!(state.get_index(15_000), Some(0));
    assert_eq!(state.get_index(25_000), Some(1));
}

#[test]
fn test_sanitize_position() {
    assert_eq!(sanitize_position(5000), 5000);
    assert_eq!(sanitize_position(0), 0);
    assert_eq!(sanitize_position(-1000), 0);
    assert_eq!(sanitize_position(-100_000), 0);
}

#[test]
fn test_timer_reset() {
    let mut timer = PlaybackTimer::default();
    timer.reset(10_000);
    assert_eq!(timer.estimate(false), 10_000);
    assert_eq!(timer.estimate(true), 10_000);
}

#[test]
fn test_timer_set_position() {
    let mut timer = PlaybackTimer::default();
    timer.set_position(5000);
    let estimate = timer.estimate(true);
    assert!(estimate >= 5000);
}

#[test]
fn test_timer_invalid_position() {
    let mut timer = PlaybackTimer::default();
    timer.set_position(-5000);
    assert_eq!(timer.estimate(false), 0);
}

#[test]
fn test_timer_anchor_position() {
    let mut timer = PlaybackTimer::default();
    timer.set_position(42_000);
    assert_eq!(timer.anchor_position(), 42_000);
}

#[test]
fn test_metadata_conversion() {
    let md = MprisMetadata {
        title: Some("Test Song".to_string()),
        artist: Some(vec!["Artist 1".to_string(), "Artist 2".to_string()]),
        album: Some(vec!["Test Album".to_string()]),
        length: Some(180_000_000),
        trackid: None,
        url: None,
    };
    let track: TrackMetadata = TrackMetadata::from_mpris(md, None);
    assert_eq!(track.title, "Test Song");
    assert_eq!(track.artist, "Artist 1");
    assert_eq!(track.album, "Test Album");
    assert_eq!(track.length_ms, Some(180_000));
}

#[test]
fn lines_are_sorted_stably_by_time() {
    let mut state = LyricState::default();
    state.update_lines(vec![line(20_000, "b"), line(10_000, "a1"), line(10_000, "a2")]);
    let texts: Vec<String> = state.lines().iter().map(|l| l.text.clone()).collect();
    assert_eq!(texts, vec!["a1".to_string(), "a2".to_string(), "b".to_string()]);
    assert_eq!(state.get_index(10_000), Some(1));
}

#[test]
fn paused_timer_keeps_its_anchor() {
    let mut timer = PlaybackTimer::default();
    timer.set_position(7000);
    timer.mark_playing();
    timer.mark_paused();
    assert_eq!(timer.estimate(true), 7000);
    assert_eq!(timer.estimate(false), 7000);
}

#[test]
fn spotify_id_comes_from_url_then_trackid() {
    let md = MprisMetadata {
        title: None,
        artist: None,
        album: None,
        length: Some(-5),
        trackid: Some("/com/spotify/track/0123456789abcdefghijkl".to_string()),
        url: Some("https://open.spotify.com/track/ABCDEFGHIJKLMNOPQRSTUV?si=x".to_string()),
    };
    let track = TrackMetadata::from_mpris(md, None);
    assert_eq!(track.spotify_id, Some("ABCDEFGHIJKLMNOPQRSTUV".to_string()));
    assert_eq!(track.length_ms, None);
    assert_eq!(track.title, "");
}

#[test]
fn test_timer_playing_paused() {
    let mut timer = PlaybackTimer::default();
    timer.set_position(10_000);
    timer.mark_playing();

    let start = std::time::Instant::now();
    while start.elapsed() < std::time::Duration::from_millis(10) {}
    let playing_estimate = timer.estimate(true);
    assert!(playing_estimate > 10_000, "Should advance when playing");

    timer.mark_paused();
    let paused_estimate = timer.estimate(true);
    assert_eq!(paused_estimate, 10_000, "Should freeze when paused");
}

#[test]
fn test_handle_state_update_seek_jump() {
    let mut state = StateBundle::new();
    state.lyric_state.update_lines(vec![line(10_000, "Line 1"), line(50_000, "Line 2")]);
    state.player_state.update_playback_dbus(true, 45_000);
    state.update_index(45_000);

    // A backward seek into the middle of the first line.
    let send = apply_state_update(&mut state, 20_000, &Some("Playing".to_string()));
    assert!(send, "Seek update should be sent");

    let update = state.create_update();
    assert_eq!(update.index, Some(0));
    assert!((update.position_ms as i64 - 20_000).abs() < 500);
}

#[test]
fn test_get_line_style_by_distance() {
    let dist0 = line_style_by_distance(0, false);
    assert_eq!(dist0, LineStyle::Current);

    // Lines already sung are drawn in the past style (italic).
    let dist1_before = line_style_by_distance(1, true);
    assert_eq!(dist1_before, LineStyle::Before);
}

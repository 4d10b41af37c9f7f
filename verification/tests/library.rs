use lyricsmpris::cache::{
    compress_raw_lyrics, decode_cached_row, decompress_raw_lyrics, lookup_plan, merge_track_id,
    normalize,
    normalize_isrc, normalize_track_id, pick_fitting_row, prepare_store, track_ids_from_rows,
    choose_store_row, identifier_rows, store_identifiers, CacheLookup,
};
use lyricsmpris::cache_read::{CacheRead, ReadAction};
use lyricsmpris::config::{first_followed, providers_from_env_if_empty, Config, MprisPlayer};
use lyricsmpris::display::{
    compute_line_index, estimate_update, gather_visible_lines, next_wakeup_delay, track_id,
};
use lyricsmpris::events::{
    accept_provider_answer, handle_mpris_event, finish_fetch, seek_echo_at, EventAction, FetchStep, MprisEvent,
};
use lyricsmpris::frontends::{
    visible_content, ModernUIState, PipeLine, PipeState, ScreenContent, UiKey,
};
use lyricsmpris::json::{decimal_string, int_string, JsonValue};
use lyricsmpris::layout::{
    collect_after_blocks, collect_after_spans, collect_before_blocks, collect_before_spans,
    line_style_by_distance, split_words_into_lines, word_highlight, wrap_text, CurrentBlock,
    LineStyle, WordHighlight,
};
use lyricsmpris::lrc::parse_synced_lyrics;
use lyricsmpris::lyricsdb::LyricsDB;
use lyricsmpris::metadata::{isrc_file_path, normalize_spotify_trackid};
use lyricsmpris::providers::{LyricsFormat, LyricsSource};
use lyricsmpris::requests::{
    after_lookup, lrclib_url, macro_url, matcher_outcome, round_to_seconds, token_from_reply,
    with_matcher_ids, FetchOutcome, MatcherStep,
};
use lyricsmpris::richsync::create_word_timing;
use lyricsmpris::similarity::{
    analyze_title, bigram_overlap, candidate_texts, levenshtein_distance, normalize_string,
};
use lyricsmpris::artist::normalize_artist_name;
use lyricsmpris::state::{Provider, StateBundle, Update};
use lyricsmpris::types::{LyricLine, LyricsError, TrackMatchInfo, TrackMetadata};
use lyricsmpris::watcher::{Discovery, WatchedPlayer};
use std::sync::Arc;

fn line(time_ms: u64, text: &str) -> LyricLine {
    LyricLine { time_ms, text: text.to_string(), words: None }
}

fn meta(title: &str) -> TrackMetadata {
    TrackMetadata {
        title: title.to_string(),
        artist: "Artist".to_string(),
        album: "Album".to_string(),
        length_ms: Some(200_000),
        spotify_id: Some("SPOT".to_string()),
        isrc: None,
        itunes_id: None,
    }
}

fn update(lines: Vec<LyricLine>, index: Option<usize>, position_ms: u64, playing: bool) -> Update {
    Update {
        lines: Arc::new(lines),
        index,
        position_ms,
        playing,
        version: 1,
        err: None,
        artist: "Artist".to_string(),
        title: "Title".to_string(),
        album: "Album".to_string(),
        provider: None,
    }
}

fn strings(v: &[&str]) -> Vec<String> {
    v.iter().map(|x| x.to_string()).collect()
}

#[test]
fn lrc_tags_give_one_line_each() {
    let lines = parse_synced_lyrics("[00:10.00]Hello\n[00:20.50][01:00.00] World \nno tag\n[00:05.00]\n");
    let got: Vec<(u64, String)> = lines.iter().map(|l| (l.time_ms, l.text.clone())).collect();
    assert_eq!(
        got,
        vec![
            (10_000, "Hello".to_string()),
            (20_500, "World".to_string()),
            (60_000, "World".to_string())
        ]
    );
    assert!(lines.iter().all(|l| l.words.is_none()));
}

#[test]
fn edit_distances() {
    assert_eq!(levenshtein_distance("kitten", "sitting"), 3);
    assert_eq!(levenshtein_distance("flaw", "lawn"), 2);
    assert_eq!(levenshtein_distance("", "abc"), 3);
    assert_eq!(levenshtein_distance("same", "same"), 0);
    assert_eq!(levenshtein_distance("sitting", "kitten"), levenshtein_distance("kitten", "sitting"));
    assert!(levenshtein_distance("abcdef", "xy") <= 6);
}

#[test]
fn bigram_overlap_counts() {
    assert_eq!(bigram_overlap("night", "nacht"), (1, 4, 4));
    assert_eq!(bigram_overlap("aaaa", "aa"), (1, 1, 1));
    assert_eq!(bigram_overlap("a", ""), (0, 0, 0));
}

#[test]
fn text_normalization() {
    assert_eq!(normalize_string("Hello, World!  (Live)"), "hello world live");
    assert_eq!(normalize_string("Café — Déjà vu"), "café déjà vu");
    assert_eq!(normalize_string(""), "");
    let (base, tags) = analyze_title("Song (Remix) - Live");
    assert_eq!(base, "song remix live");
    assert!(tags.is_empty());
}

#[test]
fn artist_names_ignore_order_and_the() {
    assert_eq!(normalize_artist_name("Drake & Rihanna"), "drake rihanna");
    assert_eq!(normalize_artist_name("Rihanna, Drake"), "drake rihanna");
    assert_eq!(normalize_artist_name("Theory of a Deadman"), "ory of a deadman");
    assert_eq!(normalize_artist_name("Queen [Remastered] (2011)"), "queen");
    assert_eq!(normalize_artist_name("A feat. B"), ". b a");
    assert_eq!(normalize_artist_name(""), "");
}

#[test]
fn request_urls() {
    assert_eq!(
        lrclib_url("AC/DC", "Back in Black", "", Some(255_500)),
        "https://lrclib.net/api/get?artist_name=AC%2FDC&track_name=Back%20in%20Black&duration=256"
    );
    assert_eq!(
        lrclib_url("a", "b", "c d", None),
        "https://lrclib.net/api/get?artist_name=a&track_name=b&album_name=c%20d"
    );
    let params = vec![
        ("track_isrc".to_string(), "US1".to_string()),
        ("usertoken".to_string(), "a b~é".to_string()),
    ];
    assert!(macro_url(&params).ends_with("&app_id=web-desktop-app-v1.0&track_isrc=US1&usertoken=a%20b~%C3%A9"));
    assert_eq!(round_to_seconds(1499), 1);
    assert_eq!(round_to_seconds(1500), 2);
}

#[test]
fn local_store_reads_back_writes_ignoring_case() {
    let mut db = LyricsDB::new();
    assert_eq!(db.get("A", "B"), None);
    db.insert("Artist", "Title", "[00:01.00]x");
    assert_eq!(db.get("ARTIST", "title"), Some("[00:01.00]x".to_string()));
    db.insert("artist", "TITLE", "[00:02.00]y");
    assert_eq!(db.get("Artist", "Title"), Some("[00:02.00]y".to_string()));
    assert_eq!(db.entries(), vec![("artist|title".to_string(), "[00:02.00]y".to_string())]);
    let copy = LyricsDB::from_entries(db.entries());
    assert_eq!(copy.get("artist", "title"), Some("[00:02.00]y".to_string()));
}

#[test]
fn cache_payloads_round_trip() {
    let blob = compress_raw_lyrics("hello lyrics").unwrap();
    assert_ne!(blob, b"hello lyrics".to_vec());
    assert_eq!(decompress_raw_lyrics(blob.clone()), Some("hello lyrics".to_string()));
    assert_eq!(decompress_raw_lyrics(Vec::new()), Some(String::new()));
    assert_eq!(decompress_raw_lyrics(vec![1, 2, 3]), None);
    assert_eq!(decode_cached_row(blob.clone(), "lrclib"), Some((LyricsFormat::Lrclib, "hello lyrics".to_string())));
    assert_eq!(decode_cached_row(blob, "mp3"), None);
    assert_eq!(LyricsFormat::from_str(LyricsFormat::Richsync.to_str()), Some(LyricsFormat::Richsync));
}

#[test]
fn cache_keys_and_plan() {
    assert_eq!(normalize("  The Band "), "the band");
    assert_eq!(normalize_isrc(" us123 "), Some("US123".to_string()));
    assert_eq!(normalize_isrc("   "), None);
    assert_eq!(normalize_track_id(" id "), Some("id".to_string()));
    let plan = lookup_plan(" Band ", "Song", "LP", &Some("x1".to_string()), &None, &Some(" ".to_string()));
    assert_eq!(
        plan,
        vec![
            CacheLookup::Isrc("X1".to_string()),
            CacheLookup::Alias("band".to_string(), "song".to_string(), "lp".to_string()),
            CacheLookup::ArtistTitle("band".to_string(), "song".to_string()),
        ]
    );
    assert_eq!(pick_fitting_row(Some(180_000), &[(0, None), (3, Some(300_000)), (4, Some(181_500))]), Some(4));
    assert_eq!(pick_fitting_row(None, &[(2, Some(1))]), Some(2));
    let rec = prepare_store(
        "A", "T", "", Some(1), LyricsFormat::Lrclib, "raw",
        &strings(&["us1", "US1", " "]), &strings(&["s", " s "]), &[],
    )
    .unwrap();
    assert_eq!(rec.isrcs, strings(&["US1"]));
    assert_eq!(rec.spotify_ids, strings(&["s"]));
    assert!(rec.itunes_ids.is_empty());
    let ids = track_ids_from_rows(&vec![
        ("isrc".to_string(), "I1".to_string()),
        ("other".to_string(), "x".to_string()),
        ("spotify".to_string(), "S1".to_string()),
        ("isrc".to_string(), "I2".to_string()),
    ]);
    assert_eq!(ids.track_isrcs, strings(&["I1", "I2"]));
    assert_eq!(ids.track_spotify_ids, strings(&["S1"]));
}

#[test]
fn event_flow_for_a_new_track() {
    let mut state = StateBundle::new();
    let m = meta("Song");
    let ev = MprisEvent::PlayerUpdate(m.clone(), 90_000, "org.mpris.MediaPlayer2.spotify".to_string());
    let action = handle_mpris_event(&mut state, &ev, &Some("Playing".to_string()), None);
    assert_eq!(action, EventAction::FetchLyrics);
    assert_eq!(state.player_state.title, "Song");
    assert!(state.player_state.playing);
    assert_eq!(state.player_state.position_ms, 0);

    let lines = vec![line(20_000, "two"), line(10_000, "one")];
    let step = accept_provider_answer(
        &mut state,
        &m,
        LyricsSource::Lrclib,
        Ok((lines, Some("raw".to_string()), TrackMatchInfo::default())),
    );
    match step {
        FetchStep::Done(Some(req)) => {
            assert_eq!(req.format, LyricsFormat::Lrclib);
            assert_eq!(req.spotify_ids, strings(&["SPOT"]));
        }
        other => panic!("unexpected {:?}", other),
    }
    assert_eq!(state.provider, Some(Provider::Lrclib));
    finish_fetch(&mut state, 15_000);
    assert_eq!(state.lyric_state.index(), Some(0));

    let seek = MprisEvent::Seeked(m.clone(), 25_000, "org.mpris.MediaPlayer2.spotify".to_string());
    assert_eq!(handle_mpris_event(&mut state, &seek, &None, None), EventAction::Send);
    assert_eq!(state.lyric_state.index(), Some(1));

    let echo = MprisEvent::Seeked(m.clone(), 25_500, "org.mpris.MediaPlayer2.spotify".to_string());
    let before = state.version;
    let act = handle_mpris_event(&mut state, &echo, &None, Some(100));
    assert_eq!(act, EventAction::Nothing);
    assert_eq!(state.version, before);
    assert!(seek_echo_at(&state, &m, 26_999, Some(499), 25_000));
    assert!(!seek_echo_at(&state, &m, 27_000, Some(499), 25_000));
    assert!(!seek_echo_at(&state, &m, 25_000, Some(500), 25_000));
    assert!(!seek_echo_at(&state, &m, 25_000, None, 25_000));
    assert!(!seek_echo_at(&state, &meta("Other"), 25_000, Some(0), 25_000));
    let far = MprisEvent::Seeked(m.clone(), 120_000, "org.mpris.MediaPlayer2.spotify".to_string());
    assert_eq!(handle_mpris_event(&mut state, &far, &None, Some(100)), EventAction::Send);
    assert_eq!(state.player_state.position_ms, 120_000);

    let stop = MprisEvent::PlayerUpdate(m, 0, "org.mpris.MediaPlayer2.spotify".to_string());
    assert_eq!(handle_mpris_event(&mut state, &stop, &Some("Stopped".to_string()), None), EventAction::Send);
    assert!(!state.has_lyrics());
    assert_eq!(state.player_state.title, "");
}

#[test]
fn provider_errors_end_the_fetch_with_a_message() {
    let mut state = StateBundle::new();
    let m = meta("Song");
    let step = accept_provider_answer(&mut state, &m, LyricsSource::Musixmatch, Err(LyricsError::Api("boom".to_string())));
    assert!(matches!(step, FetchStep::Failed));
    assert_eq!(state.player_state.err, Some("API error: boom".to_string()));
    let step = accept_provider_answer(&mut state, &m, LyricsSource::Musixmatch, Err(LyricsError::Network("down".to_string())));
    assert!(matches!(step, FetchStep::Next));
}

#[test]
fn wrapping_and_context_lines() {
    assert_eq!(wrap_text("a\n\n  \nb", 10), strings(&["a", "", "", "b"]));
    assert_eq!(wrap_text("hello world foo", 11), strings(&["hello world", "foo"]));
    let blocks = vec![strings(&["a1", "a2"]), strings(&["b1"]), strings(&["c"])];
    assert_eq!(collect_before_spans(2, &blocks, 2), strings(&["a2", "b1"]));
    assert_eq!(collect_after_spans(0, &blocks, 2), strings(&["b1", "c"]));
    assert_eq!(collect_before_blocks(2, &blocks, 1), strings(&["b1"]));
    assert_eq!(collect_after_blocks(0, &blocks, 1), strings(&["b1"]));
    assert_eq!(collect_after_blocks(2, &blocks, 5), Vec::<String>::new());
    assert_eq!(line_style_by_distance(0, false), LineStyle::Current);
    assert_eq!(line_style_by_distance(1, true), LineStyle::Before);
    assert_eq!(line_style_by_distance(1, false), LineStyle::After);
    assert_eq!(line_style_by_distance(3, false), LineStyle::AfterDim);
}

#[test]
fn word_layout_and_highlight() {
    let words = vec![
        create_word_timing(0, 100, "aaa".to_string()),
        create_word_timing(100, 200, "bb".to_string()),
        create_word_timing(200, 300, "cccc".to_string()),
    ];
    assert_eq!(split_words_into_lines(&words, 6), vec![vec![0, 1], vec![2]]);
    assert_eq!(split_words_into_lines(&Vec::new(), 6), vec![Vec::<usize>::new()]);
    let w = create_word_timing(1000, 2000, "abcd".to_string());
    assert_eq!(word_highlight(&w, 500), WordHighlight::Upcoming);
    assert_eq!(word_highlight(&w, 2000), WordHighlight::Sung);
    assert_eq!(word_highlight(&w, 1500), WordHighlight::Partial(2));
    assert_eq!(word_highlight(&w, 1100), WordHighlight::Upcoming);
}

#[test]
fn position_estimates_and_wakeups() {
    let u = update(vec![line(1000, "a"), line(5000, "b")], Some(0), 4000, true);
    assert_eq!(compute_line_index(&u), Some(0));
    let e = estimate_update(&u, Some(2000));
    assert_eq!(e.position_ms, 6000);
    assert_eq!(e.index, Some(1));
    assert_eq!(next_wakeup_delay(&update(vec![line(5000, "a"), line(9000, "b")], None, 1000, true)), Some(4000));
    assert_eq!(next_wakeup_delay(&update(vec![line(0, "a"), line(5000, "b")], Some(0), 1000, true)), Some(4000));
    assert_eq!(next_wakeup_delay(&update(vec![line(0, "a")], Some(0), 1000, false)), None);
    let one = update(vec![line(0, "a")], Some(0), 1000, true);
    assert_eq!(compute_line_index(&one), None);
    assert_eq!(track_id(&u), ("Artist".to_string(), "Title".to_string(), "Album".to_string()));
}

#[test]
fn configuration_choices() {
    let cfg = Config::default();
    assert_eq!(cfg.providers, strings(&["lrclib", "musixmatch"]));
    let mut empty = Config { providers: Vec::new(), ..Config::default() };
    providers_from_env_if_empty(&mut empty, Some(" LRCLIB , ,Musixmatch"));
    assert_eq!(empty.providers, strings(&["lrclib", "musixmatch"]));
    let names = strings(&["org.mpris.MediaPlayer2.firefox", "org.mpris.MediaPlayer2.spotify"]);
    assert_eq!(
        first_followed(&names, &strings(&["Firefox"]), &Vec::new()),
        Some("org.mpris.MediaPlayer2.spotify".to_string())
    );
    assert_eq!(first_followed(&names, &strings(&["mpris"]), &Vec::new()), None);
    assert_eq!(
        first_followed(&names, &Vec::new(), &strings(&["SPOTIFY"])),
        Some("org.mpris.MediaPlayer2.spotify".to_string())
    );
    assert_eq!(first_followed(&names, &strings(&["spot"]), &strings(&["spotify"])), None);
    let player = MprisPlayer {
        service: "s".to_string(),
        playback_status: "Playing".to_string(),
        title: Some("T".to_string()),
        artist: None,
        album: Some("A".to_string()),
        position: Some(5),
    };
    let m = player.to_metadata();
    assert_eq!((m.title.as_str(), m.artist.as_str(), m.album.as_str()), ("T", "", "A"));
}

#[test]
fn watcher_follows_one_player() {
    let mut w = WatchedPlayer::new();
    let names = strings(&["org.mpris.MediaPlayer2.vlc"]);
    assert_eq!(w.discover(&names, &Vec::new(), &Vec::new()), Discovery::SwitchTo("org.mpris.MediaPlayer2.vlc".to_string()));
    let ev = w.switch_to("org.mpris.MediaPlayer2.vlc", Some(meta("X")), Some(3_500_000), None);
    assert!(matches!(ev, MprisEvent::PlayerUpdate(_, 3500, _)));
    assert_eq!(w.playback_status, "Stopped");
    assert_eq!(w.discover(&names, &Vec::new(), &Vec::new()), Discovery::Keep);
    assert!(w.on_metadata(meta("X"), Some(0)).is_none());
    assert!(w.on_metadata(meta("Y"), Some(1_000_000)).is_some());
    assert_eq!(w.position_ms, 1000);
    assert!(w.on_status(Some("Stopped".to_string()), None).is_none());
    assert!(w.on_status(Some("Playing".to_string()), Some(42)).is_some());
    assert_eq!(w.discover(&Vec::new(), &Vec::new(), &Vec::new()), Discovery::Deactivate);
    assert!(matches!(w.deactivate(), MprisEvent::PlayerUpdate(_, 0, _)));
    assert!(!w.is_active());
}

fn obj(members: Vec<(&str, JsonValue)>) -> JsonValue {
    JsonValue::Object(members.into_iter().map(|(k, v)| (k.to_string(), v)).collect())
}

#[test]
fn service_replies() {
    let reply = obj(vec![(
        "message",
        obj(vec![
            ("header", obj(vec![("status_code", JsonValue::Int(200))])),
            ("body", obj(vec![("user_token", JsonValue::Str(" tok ".to_string()))])),
        ]),
    )]);
    assert_eq!(token_from_reply(&reply), Ok("tok".to_string()));
    let refused = obj(vec![("message", obj(vec![("header", obj(vec![("status_code", JsonValue::Int(401))]))]))]);
    assert_eq!(token_from_reply(&refused), Err(LyricsError::Api("Musixmatch token.get status 401".to_string())));
    match matcher_outcome(&refused) {
        MatcherStep::Done(FetchOutcome::TokenError(m)) => assert_eq!(m, "Matcher API Status 401"),
        other => panic!("unexpected {:?}", other),
    }
    let instrumental = obj(vec![(
        "message",
        obj(vec![("body", obj(vec![("track", obj(vec![("instrumental", JsonValue::Bool(true))]))]))]),
    )]);
    match matcher_outcome(&instrumental) {
        MatcherStep::Done(FetchOutcome::Success(lines, raw, _)) => {
            assert_eq!(lines.len(), 1);
            assert_eq!(lines[0].text, "♪ Instrumental ♪");
            assert_eq!(raw, None);
        }
        other => panic!("unexpected {:?}", other),
    }
    assert_eq!(decimal_string(0), "0");
    assert_eq!(decimal_string(1234), "1234");
    assert_eq!(int_string(-42), "-42");
}

#[test]
fn isrc_path_lookup() {
    assert_eq!(isrc_file_path(Some("file:///music/a.flac")), Some("/music/a.flac".to_string()));
    assert_eq!(isrc_file_path(Some("/music/a.flac")), Some("/music/a.flac".to_string()));
    assert_eq!(isrc_file_path(Some("https://x/a.flac")), None);
    assert_eq!(isrc_file_path(None), None);
    assert_eq!(isrc_file_path(Some("file:///music/a%20b%C3%A9.flac")), Some("/music/a bé.flac".to_string()));
    assert_eq!(isrc_file_path(Some("file:///music/%FF.flac")), None);
}

#[test]
fn modern_view_state() {
    let mut ui = ModernUIState::new();
    let u = update(vec![line(0, "a")], Some(0), 0, true);
    assert!(ui.update_state(Some(u)));
    assert!(ui.last_update.is_some());
    let mut err = update(Vec::new(), None, 0, true);
    err.err = Some("oops".to_string());
    assert!(!ui.update_state(Some(err)));
    assert!(ui.last_update.is_some());
    ui.handle_key(UiKey::Char('k', false));
    assert!(!ui.karaoke_enabled);
    ui.handle_key(UiKey::Esc);
    assert!(ui.should_exit);
}

#[test]
fn test_pipe_state_seek_before_first_line_and_middle_of_line() {
    let mut pipe_state = PipeState::new();
    let lines = vec![line(10_000, "Line 1"), line(50_000, "Line 2")];
    let mut upd = update(lines.clone(), Some(1), 60_000, true);
    upd.version = 1;
    let printed = pipe_state.update_from_mpris(upd);
    assert_eq!(printed, vec![PipeLine::Text("Line 2".to_string())]);
    assert_eq!(pipe_state.last_line_idx, Some(1));

    let upd = update(lines.clone(), None, 2_000, true);
    let printed = pipe_state.update_from_mpris(upd);
    assert_eq!(printed, vec![PipeLine::Blank]);
    assert_eq!(pipe_state.last_line_idx, None);

    let upd = update(lines, Some(0), 25_000, true);
    pipe_state.update_from_mpris(upd);
    assert_eq!(pipe_state.last_line_idx, Some(0));
}

#[test]
fn paused_view_scrolls_within_lyrics() {
    let mut ui = ModernUIState::new();
    let lines = vec![line(0, "a"), line(1000, "b"), line(2000, "c")];
    assert!(ui.update_state(Some(update(lines.clone(), Some(1), 1500, false))));
    ui.handle_key(UiKey::Up);
    assert_eq!(ui.scroll_offset, -1);
    ui.handle_key(UiKey::Char('k', false));
    assert_eq!(ui.scroll_offset, -1, "already at the first line");
    assert!(ui.karaoke_enabled, "k scrolls while paused");
    ui.handle_key(UiKey::Char('j', false));
    ui.handle_key(UiKey::Down);
    ui.handle_key(UiKey::Down);
    assert_eq!(ui.scroll_offset, 1, "stops at the last line");

    let blocks = vec![strings(&["a"]), strings(&["b"]), strings(&["c"])];
    let paused = update(lines.clone(), Some(1), 1500, false);
    let shown = gather_visible_lines(&paused, &blocks, 10, 1, true, None, ui.scroll_offset);
    assert!(matches!(shown.current, CurrentBlock::Plain(ref l, _) if l == &strings(&["c"])));

    // Playing again locks the view back on the active line.
    assert!(ui.update_state(Some(update(lines, Some(1), 1500, true))));
    assert_eq!(ui.scroll_offset, 0);
    ui.handle_key(UiKey::Char('k', false));
    assert!(!ui.karaoke_enabled);
}

#[test]
fn cache_finds_what_it_stores() {
    let rec = prepare_store(
        " Some Band ", "The Song", "Live LP ", Some(200_000), LyricsFormat::Richsync, "[{}]",
        &strings(&[" gbabc1234567 "]), &strings(&["Spot1"]), &[],
    )
    .unwrap();
    let plan = lookup_plan(" Some Band ", "The Song", "Live LP ", &Some("gbabc1234567".to_string()), &None, &None);
    assert_eq!(plan[0], CacheLookup::Isrc(rec.isrcs[0].clone()));
    assert!(plan.contains(&CacheLookup::Alias(rec.artist.clone(), rec.title.clone(), rec.album.clone())));
    assert_eq!(decode_cached_row(rec.blob.clone(), LyricsFormat::Richsync.to_str()), Some((LyricsFormat::Richsync, "[{}]".to_string())));

    // The player's own id is kept with the lyrics, once.
    assert_eq!(merge_track_id(&strings(&["a"]), &Some("B".to_string())), strings(&["a", "B"]));
    assert_eq!(merge_track_id(&strings(&["b"]), &Some("B".to_string())), strings(&["b"]));
    assert_eq!(merge_track_id(&strings(&["b"]), &None), strings(&["b"]));
}

#[test]
fn musixmatch_lookup_order() {
    assert!(after_lookup(FetchOutcome::TrackNotFound).is_none());
    assert!(matches!(
        after_lookup(FetchOutcome::TokenError("HTTP 401".to_string())),
        Some(FetchOutcome::TokenError(m)) if m == "HTTP 401"
    ));
    let ids = TrackMatchInfo { track_isrcs: vec!["I".to_string()], ..TrackMatchInfo::default() };
    let found = FetchOutcome::Success(vec![line(0, "x")], Some("raw".to_string()), TrackMatchInfo::default());
    match with_matcher_ids(found, ids.clone()) {
        FetchOutcome::Success(l, raw, got) => {
            assert_eq!(l.len(), 1);
            assert_eq!(raw, Some("raw".to_string()));
            assert_eq!(got, ids);
        }
        other => panic!("unexpected {:?}", other),
    }
    assert!(matches!(with_matcher_ids(FetchOutcome::TrackNotFound, ids), FetchOutcome::TrackNotFound));
}

#[test]
fn screen_content_choices() {
    let mut cache: Option<(usize, Vec<Vec<String>>)> = None;
    assert!(matches!(visible_content(&None, &mut cache, 10, 5, true, None, 0), ScreenContent::Nothing));
    let mut err = update(Vec::new(), None, 0, true);
    err.err = Some("boom".to_string());
    match visible_content(&Some(err), &mut cache, 10, 5, true, None, 0) {
        ScreenContent::Error(ls) => assert_eq!(ls, strings(&["boom"])),
        other => panic!("unexpected {:?}", other),
    }
    assert!(cache.is_none());
    let u = update(vec![line(0, "a"), line(1000, "b"), line(2000, "c")], Some(1), 1500, true);
    match visible_content(&Some(u), &mut cache, 10, 3, true, None, 0) {
        ScreenContent::Lyrics(v) => {
            assert_eq!(v.before, strings(&["a"]));
            assert_eq!(v.after, strings(&["c"]));
            assert!(matches!(v.current, CurrentBlock::Plain(ref l, LineStyle::Current) if l == &strings(&["b"])));
        }
        other => panic!("unexpected {:?}", other),
    }
    assert_eq!(cache.as_ref().map(|(w, b)| (*w, b.len())), Some((10, 3)));
}

#[test]
fn spotify_ids_from_track_ids() {
    assert_eq!(
        normalize_spotify_trackid("spotify:track:5FVd6KXrgO9B3JPmC8OPst"),
        Some("5FVd6KXrgO9B3JPmC8OPst".to_string())
    );
    assert_eq!(
        normalize_spotify_trackid("/com/spotify/track/5FVd6KXrgO9B3JPmC8OPst"),
        Some("5FVd6KXrgO9B3JPmC8OPst".to_string())
    );
    assert_eq!(normalize_spotify_trackid("/org/mpris/MediaPlayer2/Track/3"), None);
}

#[test]
fn store_joins_the_row_of_the_first_identifier_found() {
    let rec = prepare_store(
        "Band", "Song", "LP", Some(200_000), LyricsFormat::Lrclib, "raw",
        &strings(&["us1"]), &strings(&["sp"]), &strings(&["it"]),
    )
    .unwrap();
    assert_eq!(
        store_identifiers(&rec),
        vec![
            ("isrc".to_string(), "US1".to_string()),
            ("spotify".to_string(), "sp".to_string()),
            ("itunes".to_string(), "it".to_string()),
        ]
    );
    let rows = [(7, Some(201_000)), (8, Some(200_000))];
    assert_eq!(choose_store_row(&rec, &vec![None, Some(5), Some(6)], Some(9), &rows), Some(5));
    assert_eq!(choose_store_row(&rec, &vec![None, None, None], Some(9), &rows), Some(9));
    assert_eq!(choose_store_row(&rec, &vec![None, None, None], None, &rows), Some(7));
    assert_eq!(choose_store_row(&rec, &vec![], None, &[(7, Some(260_000))]), None);
    let nameless = prepare_store(
        "", "Song", "", None, LyricsFormat::Lrclib, "raw", &[], &[], &[],
    )
    .unwrap();
    assert!(store_identifiers(&nameless).is_empty());
    assert_eq!(choose_store_row(&nameless, &vec![], None, &rows), None);
}

#[test]
fn line_breaking_keeps_order_and_width() {
    let texts = ["one", "two", "three", "extraordinarily", "a", "b", "c"];
    let words: Vec<_> = texts
        .iter()
        .enumerate()
        .map(|(k, t)| create_word_timing(k as u64 * 100, k as u64 * 100 + 100, t.to_string()))
        .collect();
    let lines = split_words_into_lines(&words, 9);
    assert_eq!(lines, vec![vec![0, 1], vec![2], vec![3], vec![4, 5, 6]]);
    let flat: Vec<usize> = lines.iter().flatten().copied().collect();
    assert_eq!(flat, (0..texts.len()).collect::<Vec<_>>());
    for line in &lines {
        assert!(!line.is_empty());
        if line.len() >= 2 {
            let w: usize = line.iter().map(|&k| texts[k].chars().count()).sum::<usize>() + line.len() - 1;
            assert!(w <= 9);
        }
    }
    for pair in lines.windows(2) {
        let mut joined = pair[0].clone();
        joined.push(pair[1][0]);
        let w: usize = joined.iter().map(|&k| texts[k].chars().count()).sum::<usize>() + joined.len() - 1;
        assert!(w > 9);
    }
    assert_eq!(split_words_into_lines(&words, 0), vec![vec![0, 1, 2, 3, 4, 5, 6]]);
}

#[test]
fn cache_read_takes_the_first_fitting_readable_row_in_plan_order() {
    let (mut read, a) = CacheRead::start(
        "Band", "Song", "LP", &Some("USABC1234567".to_string()), &None, &None, Some(200_000),
    );
    assert!(matches!(&a, ReadAction::Query(CacheLookup::Isrc(k)) if k == "USABC1234567"));
    let a = read.after_rows(vec![(3, Some(300_000))]);
    assert!(matches!(&a, ReadAction::Query(CacheLookup::Alias(x, y, z)) if x == "band" && y == "song" && z == "lp"));
    let a = read.after_rows(Vec::new());
    assert!(matches!(&a, ReadAction::Query(CacheLookup::ArtistTitle(x, y)) if x == "band" && y == "song"));
    let a = read.after_rows(vec![(5, Some(250_000)), (6, None), (7, Some(200_500))]);
    assert!(matches!(a, ReadAction::Read(1)));
    let a = read.after_read(false);
    assert!(matches!(a, ReadAction::Read(2)));
    let a = read.after_read(true);
    assert!(matches!(a, ReadAction::Found(Some(7))));

    let (mut read, _) = CacheRead::start("Band", "Song", "", &None, &None, &None, None);
    let a = read.after_rows(vec![(4, Some(1))]);
    assert!(matches!(a, ReadAction::Read(0)));
    let a = read.after_read(true);
    assert!(matches!(a, ReadAction::Found(None)));

    let (mut read, _) = CacheRead::start("", "", "", &None, &None, &None, None);
    let a = read.after_rows(vec![(4, None)]);
    assert!(matches!(a, ReadAction::Read(0)));
    let a = read.after_read(false);
    assert!(matches!(a, ReadAction::NotFound));
}

#[test]
fn paused_view_clamps_an_index_past_the_end() {
    let blocks = vec![strings(&["a"]), strings(&["b"]), strings(&["c"])];
    let paused = update(Vec::new(), Some(10), 0, false);
    let shown = gather_visible_lines(&paused, &blocks, 10, 5, false, None, 0);
    assert!(matches!(shown.current, CurrentBlock::Plain(ref l, _) if l == &strings(&["c"])));
    assert_eq!(shown.before, strings(&["a", "b"]));
    assert!(shown.after.is_empty());
    let playing = update(Vec::new(), Some(10), 0, true);
    let shown = gather_visible_lines(&playing, &blocks, 10, 5, false, Some(1), 0);
    assert!(shown.before.is_empty() && shown.after.is_empty());
}

#[test]
fn cache_scenarios_multi_album_and_duration() {
    let lrc = "[00:10.00]Song lyric\n[00:20.00]Another line";
    let store = |album: &str, secs_ms: u64, isrcs: &[&str], spotify: &[&str]| {
        prepare_store(
            "Artist Name", "Song Title", album, Some(secs_ms), LyricsFormat::Lrclib, lrc,
            &strings(isrcs), &strings(spotify), &[],
        )
        .unwrap()
    };
    // Three albums of one recording share one entry.
    let first = store("Original Album", 200_000, &["USRC12345678"], &["spotify_track_1"]);
    assert_eq!(store_identifiers(&first).len(), 2);
    assert_eq!(choose_store_row(&first, &vec![None, None], None, &[]), None);
    let second = store("Greatest Hits", 200_000, &["USRC12345678"], &["spotify_track_1"]);
    assert_eq!(choose_store_row(&second, &vec![Some(1), Some(1)], None, &[(1, Some(200_000))]), Some(1));
    let third = store("Singles Collection", 200_500, &[], &[]);
    assert!(store_identifiers(&third).is_empty());
    assert_eq!(choose_store_row(&third, &vec![], None, &[(1, Some(200_000))]), Some(1));

    // Read under a stored album: the alias finds it.
    let (mut read, a) = CacheRead::start("Artist Name", "Song Title", "Greatest Hits", &None, &None, &None, Some(200_000));
    assert!(matches!(&a, ReadAction::Query(CacheLookup::Alias(_, _, al)) if al == "greatest hits"));
    assert!(matches!(read.after_rows(vec![(1, Some(200_000))]), ReadAction::Read(0)));
    assert!(matches!(read.after_read(true), ReadAction::Found(None)));
    // Read under a new album: artist and title find it, and the album is filed.
    let (mut read, _) = CacheRead::start("Artist Name", "Song Title", "Deluxe Edition", &None, &None, &None, Some(200_000));
    assert!(matches!(read.after_rows(Vec::new()), ReadAction::Query(CacheLookup::ArtistTitle(_, _))));
    assert!(matches!(read.after_rows(vec![(1, Some(200_000))]), ReadAction::Read(0)));
    assert!(matches!(read.after_read(true), ReadAction::Found(Some(1))));

    // A live recording two minutes longer gets its own entry.
    let live = prepare_store(
        "Band", "Track", "Live in Concert", Some(300_000), LyricsFormat::Lrclib, "[00:10.00]Live line",
        &strings(&["LIVE1234567"]), &[], &[],
    )
    .unwrap();
    assert_eq!(choose_store_row(&live, &vec![None], None, &[(1, Some(180_000))]), None);
    let (mut read, _) = CacheRead::start("Band", "Track", "Live in Concert", &None, &None, &None, Some(300_000));
    assert!(matches!(read.after_rows(vec![(2, Some(300_000))]), ReadAction::Read(0)));
    assert!(matches!(read.after_read(true), ReadAction::Found(None)));
    let (mut read, _) = CacheRead::start("Band", "Track", "Other", &None, &None, &None, Some(180_000));
    assert!(matches!(read.after_rows(Vec::new()), ReadAction::Query(_)));
    assert!(matches!(read.after_rows(vec![(2, Some(300_000)), (1, Some(180_000))]), ReadAction::Read(1)));
}

fn text(s: &str) -> JsonValue {
    JsonValue::Str(s.to_string())
}

#[test]
fn candidate_fields_come_from_the_first_key_present() {
    let c = obj(vec![(
        "attributes",
        obj(vec![("name", text("Song")), ("artistName", text("Band")), ("albumName", text("LP"))]),
    )]);
    assert_eq!(
        candidate_texts(&c),
        (Some("Song".to_string()), Some("Band".to_string()), Some("LP".to_string()))
    );
    let c = obj(vec![("title", JsonValue::Int(5)), ("track_name", text("x")), ("artist", text("A"))]);
    assert_eq!(candidate_texts(&c), (None, Some("A".to_string()), None));
    let c = obj(vec![("track_name", text("T")), ("album_vanity_id", text("v"))]);
    assert_eq!(candidate_texts(&c), (Some("T".to_string()), None, Some("v".to_string())));
}

#[test]
fn each_stored_identifier_gets_one_row_with_its_position() {
    let rec = prepare_store(
        "A", "T", "", None, LyricsFormat::Lrclib, "raw",
        &strings(&["us1", " ", "US1", "us2"]), &strings(&["s", "s"]), &strings(&["i"]),
    )
    .unwrap();
    assert_eq!(
        identifier_rows(&rec),
        vec![
            ("isrc".to_string(), "US1".to_string(), 0),
            ("isrc".to_string(), "US2".to_string(), 1),
            ("spotify".to_string(), "s".to_string(), 0),
            ("itunes".to_string(), "i".to_string(), 0),
        ]
    );
}

use lyricsmpris::metadata::PlaybackStatus;
use lyricsmpris::providers::TokenManager;
use lyricsmpris::requests::{FetchOutcome, MatcherStep};
use lyricsmpris::token_search::{
    LookupAction, SearchAction, SearchStage, TokenLookups, UsertokenSearch,
};
use lyricsmpris::types::{LyricLine, LyricsError, TrackMatchInfo};

fn three_tokens() -> TokenManager {
    TokenManager {
        tokens: vec![
            "token1".to_string(),
            "token2".to_string(),
            "token3".to_string(),
        ],
        current_index: 0,
        cached_dynamic_token: None,
    }
}

fn no_tokens() -> TokenManager {
    TokenManager {
        tokens: Vec::new(),
        current_index: 0,
        cached_dynamic_token: None,
    }
}

#[test]
fn musixmatch_test_token_manager_round_robin() {
    let mut tm = three_tokens();
    assert_eq!(tm.next_env_token(), Some("token1".to_string()));
    assert_eq!(tm.next_env_token(), Some("token2".to_string()));
    assert_eq!(tm.next_env_token(), Some("token3".to_string()));
    assert_eq!(tm.next_env_token(), Some("token1".to_string()));
}

#[test]
fn token_test_token_manager_round_robin() {
    let mut tm = three_tokens();
    assert_eq!(tm.next_env_token(), Some("token1".to_string()));
    assert_eq!(tm.next_env_token(), Some("token2".to_string()));
    assert_eq!(tm.next_env_token(), Some("token3".to_string()));
    assert_eq!(tm.next_env_token(), Some("token1".to_string()));
}

#[test]
fn musixmatch_test_token_manager_dynamic_caching() {
    let mut tm = no_tokens();
    assert_eq!(tm.next_env_token(), None);
    assert_eq!(tm.get_dynamic_token(), None);
    tm.set_dynamic_token("fresh_dynamic_token_123".to_string());
    assert_eq!(
        tm.get_dynamic_token(),
        Some("fresh_dynamic_token_123".to_string())
    );
}

#[test]
fn token_test_token_manager_dynamic_caching() {
    let mut tm = no_tokens();
    assert_eq!(tm.next_env_token(), None);
    assert_eq!(tm.get_dynamic_token(), None);
    tm.set_dynamic_token("fresh_dynamic_token_123".to_string());
    assert_eq!(
        tm.get_dynamic_token(),
        Some("fresh_dynamic_token_123".to_string())
    );
}

#[test]
fn test_playback_status_conversion() {
    assert_eq!(PlaybackStatus::from_str("Playing"), PlaybackStatus::Playing);
    assert_eq!(PlaybackStatus::from_str("Paused"), PlaybackStatus::Paused);
    assert_eq!(PlaybackStatus::from_str("Stopped"), PlaybackStatus::Stopped);
    assert_eq!(PlaybackStatus::from_str("Unknown"), PlaybackStatus::Stopped);
    assert_eq!(PlaybackStatus::Playing.as_str(), "Playing");
    assert_eq!(PlaybackStatus::Paused.as_str(), "Paused");
    assert_eq!(PlaybackStatus::Stopped.as_str(), "Stopped");
}

#[test]
fn token_manager_reads_comma_separated_tokens() {
    let mut tm = TokenManager::new(Some(" a , ,b,"));
    assert_eq!(tm.env_token_count(), 2);
    assert_eq!(tm.next_env_token(), Some("a".to_string()));
    assert_eq!(tm.next_env_token(), Some("b".to_string()));
    assert_eq!(tm.next_env_token(), Some("a".to_string()));
    let empty = TokenManager::new(None);
    assert_eq!(empty.env_token_count(), 0);
}

fn is_request(a: &SearchAction, token: &str) -> bool {
    matches!(a, SearchAction::Request(t) if t == token)
}

fn is_nothing(a: &SearchAction) -> bool {
    matches!(a, SearchAction::Finish(Ok((lines, None, ids))) if lines.is_empty() && *ids == TrackMatchInfo::default())
}

#[test]
fn usertoken_search_tries_configured_tokens_then_the_service_token() {
    let mut m = three_tokens();
    m.current_index = 1;
    let (mut s, a) = UsertokenSearch::start(&mut m);
    assert!(is_request(&a, "token2"));
    let a = s.after_request(&mut m, Ok(FetchOutcome::TokenError("HTTP 401".to_string())));
    assert!(is_request(&a, "token3"));
    let a = s.after_request(&mut m, Err(LyricsError::Network("down".to_string())));
    assert!(is_request(&a, "token1"));
    let a = s.after_request(&mut m, Ok(FetchOutcome::TokenError("HTTP 429".to_string())));
    assert!(matches!(a, SearchAction::FetchToken));
    assert_eq!(s.attempts, 3);
    assert_eq!(m.current_index, 1);
    let a = s.after_token(&mut m, Some("fresh".to_string()));
    assert!(is_request(&a, "fresh"));
    assert_eq!(m.cached_dynamic_token, Some("fresh".to_string()));
    let a = s.after_request(&mut m, Ok(FetchOutcome::TokenError("HTTP 401".to_string())));
    assert!(matches!(a, SearchAction::FetchToken));
    let a = s.after_token(&mut m, Some("again".to_string()));
    assert!(is_request(&a, "again"));
    let a = s.after_request(&mut m, Ok(FetchOutcome::TokenError("HTTP 401".to_string())));
    assert!(is_nothing(&a));
    assert_eq!(s.stage, SearchStage::Finished);
}

#[test]
fn usertoken_search_ends_at_a_missing_track() {
    let mut m = three_tokens();
    let (mut s, a) = UsertokenSearch::start(&mut m);
    assert!(is_request(&a, "token1"));
    let a = s.after_request(&mut m, Ok(FetchOutcome::TrackNotFound));
    assert!(is_nothing(&a));
    assert_eq!(s.attempts, 1);
    assert_eq!(m.cached_dynamic_token, None);
}

#[test]
fn usertoken_search_uses_the_cached_service_token() {
    let mut m = no_tokens();
    m.set_dynamic_token("cached".to_string());
    let (mut s, a) = UsertokenSearch::start(&mut m);
    assert!(is_request(&a, "cached"));
    let line = LyricLine { time_ms: 5, text: "la".to_string(), words: None };
    let a = s.after_request(
        &mut m,
        Ok(FetchOutcome::Success(vec![line.clone()], Some("raw".to_string()), TrackMatchInfo::default())),
    );
    assert!(matches!(a, SearchAction::Finish(Ok((lines, Some(raw), _))) if lines == vec![line] && raw == "raw"));
    let mut m = no_tokens();
    let (mut s, a) = UsertokenSearch::start(&mut m);
    assert!(matches!(a, SearchAction::FetchToken));
    let a = s.after_token(&mut m, None);
    assert!(is_nothing(&a));
}

fn pair(a: &str, b: &str) -> (String, String) {
    (a.to_string(), b.to_string())
}

#[test]
fn token_lookups_go_by_identifiers_then_the_matcher() {
    let (mut l, a) = TokenLookups::start(
        "tok", "Band", "Song", "", &Some("sp1".to_string()), &None, &Some("it1".to_string()),
        Some(200_400),
    );
    match &a {
        LookupAction::Macro(p) => assert_eq!(
            p,
            &vec![pair("track_spotify_id", "sp1"), pair("usertoken", "tok"), pair("q_duration", "200")]
        ),
        _ => panic!("expected the Spotify lookup"),
    }
    let a = l.after_macro(Ok(FetchOutcome::TrackNotFound));
    match &a {
        LookupAction::Macro(p) => assert_eq!(p[0], pair("track_itunes_id", "it1")),
        _ => panic!("expected the iTunes lookup"),
    }
    let a = l.after_macro(Ok(FetchOutcome::TrackNotFound));
    match &a {
        LookupAction::Matcher(url) => {
            assert!(url.contains("q_artist=Band&q_track=Song&usertoken=tok"));
            assert!(url.ends_with("&q_duration=200"));
        }
        _ => panic!("expected the matcher"),
    }
    let mut ids = TrackMatchInfo::default();
    ids.track_isrcs = vec!["X1".to_string()];
    let a = l.after_matcher(Ok(MatcherStep::FetchCommontrack(42, ids.clone())));
    match &a {
        LookupAction::Macro(p) => assert_eq!(p[0], pair("commontrack_id", "42")),
        _ => panic!("expected the common track lookup"),
    }
    let a = l.after_macro(Ok(FetchOutcome::Success(Vec::new(), Some("raw".to_string()), TrackMatchInfo::default())));
    assert!(matches!(a, LookupAction::Finish(Ok(FetchOutcome::Success(_, Some(_), got))) if got == ids));
}

#[test]
fn token_lookups_end_at_a_refusal_or_a_failed_request() {
    let (mut l, _) = TokenLookups::start("tok", "A", "T", "", &Some("s".to_string()), &Some("i".to_string()), &None, None);
    let a = l.after_macro(Ok(FetchOutcome::TokenError("HTTP 401".to_string())));
    assert!(matches!(a, LookupAction::Finish(Ok(FetchOutcome::TokenError(m))) if m == "HTTP 401"));
    let (mut l, _) = TokenLookups::start("tok", "A", "T", "", &Some("s".to_string()), &Some("i".to_string()), &None, None);
    let a = l.after_macro(Err(LyricsError::Network("down".to_string())));
    assert!(matches!(a, LookupAction::Finish(Err(LyricsError::Network(_)))));
    let (mut l, a) = TokenLookups::start("tok", "A", "T", "", &None, &None, &None, None);
    assert!(matches!(a, LookupAction::Matcher(_)));
    let a = l.after_matcher(Ok(MatcherStep::Done(FetchOutcome::TrackNotFound)));
    assert!(matches!(a, LookupAction::Finish(Ok(FetchOutcome::TrackNotFound))));
}
